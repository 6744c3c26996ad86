//! Progress reporting: the host registers callbacks that are told how many
//! bytes were processed and answer whether to go on.

use vstd::prelude::*;

verus! {

/// A progress callback registered by the host. It is told the number of bytes
/// just processed and answers zero to ask for the operation to stop.
pub trait ProcessDataProc {
    fn process_data(&mut self, size: i32) -> i32;
}

/// The byte count handed to a callback: the true count, or the largest value
/// the callback can take when the count exceeds it.
pub open spec fn reported_amount(len: nat) -> i32 {
    if len <= i32::MAX {
        len as i32
    } else {
        i32::MAX
    }
}

/// The byte count handed to a callback for `len` processed bytes.
pub fn progress_amount(len: usize) -> (r: i32)
    ensures
        r == reported_amount(len as nat),
{
    if len <= i32::MAX as usize {
        len as i32
    } else {
        i32::MAX
    }
}

/// Whether a callback's answer lets the operation go on: any answer but zero.
pub fn callback_continues(answer: i32) -> (r: bool)
    ensures
        r == (answer != 0),
{
    answer != 0
}

/// One call of a callback.
pub struct ReportRecord {
    /// The wide callback was called, not the narrow one.
    pub wide: bool,
    /// The byte count handed to it.
    pub amount: i32,
    /// Its answer.
    pub answer: i32,
}

/// The two callback slots of one scope: one for each of the host's string
/// flavours. When both are filled, the wide one is used. The slots keep a
/// ghost record of every call made through them.
pub struct ProgressSlots<N, W> {
    narrow: Option<N>,
    wide: Option<W>,
    calls: Ghost<Seq<ReportRecord>>,
}

impl<N: ProcessDataProc, W: ProcessDataProc> ProgressSlots<N, W> {
    /// The callback for narrow strings.
    pub closed spec fn narrow(&self) -> Option<N> {
        self.narrow
    }

    /// The callback for wide strings.
    pub closed spec fn wide(&self) -> Option<W> {
        self.wide
    }

    /// Every call made through these slots, oldest first.
    pub closed spec fn calls(&self) -> Seq<ReportRecord> {
        self.calls@
    }

    /// Slots with no callback registered.
    pub fn new() -> (r: Self)
        ensures
            r.narrow() is None,
            r.wide() is None,
            r.calls() == Seq::<ReportRecord>::empty(),
    {
        ProgressSlots { narrow: None, wide: None, calls: Ghost(Seq::empty()) }
    }

    /// Whether a callback is registered in either slot.
    pub open spec fn has_callback(&self) -> bool {
        self.narrow() is Some || self.wide() is Some
    }

    /// Registers the callback for narrow strings, replacing an earlier one.
    pub fn set_narrow(&mut self, cb: N)
        ensures
            final(self).narrow() == Some(cb),
            final(self).wide() == old(self).wide(),
            final(self).calls() == old(self).calls(),
    {
        self.narrow = Some(cb);
    }

    /// Registers the callback for wide strings, replacing an earlier one.
    pub fn set_wide(&mut self, cb: W)
        ensures
            final(self).wide() == Some(cb),
            final(self).narrow() == old(self).narrow(),
            final(self).calls() == old(self).calls(),
    {
        self.wide = Some(cb);
    }

    /// Whether a callback is registered in either slot.
    pub fn any_registered(&self) -> (r: bool)
        ensures
            r == self.has_callback(),
    {
        self.narrow.is_some() || self.wide.is_some()
    }

    /// The callback for narrow strings, if registered.
    pub fn narrow_callback(&self) -> (r: Option<&N>)
        ensures
            r is Some <==> self.narrow() is Some,
            r matches Some(cb) ==> Some(*cb) == self.narrow(),
    {
        self.narrow.as_ref()
    }

    /// The callback for wide strings, if registered.
    pub fn wide_callback(&self) -> (r: Option<&W>)
        ensures
            r is Some <==> self.wide() is Some,
            r matches Some(cb) ==> Some(*cb) == self.wide(),
    {
        self.wide.as_ref()
    }

    /// Reports `len` processed bytes to the callback in charge: the wide one if
    /// registered, else the narrow one. True when the operation may go on,
    /// which is when the callback answered anything but zero. With no callback
    /// registered nothing is called and the answer is to stop.
    pub fn report(&mut self, len: usize) -> (r: bool)
        ensures
            final(self).has_callback() == old(self).has_callback(),
            final(self).wide() is Some == old(self).wide() is Some,
            final(self).narrow() is Some == old(self).narrow() is Some,
            old(self).wide() is Some ==> final(self).narrow() == old(self).narrow(),
            old(self).wide() is None ==> final(self).wide() == old(self).wide(),
            !old(self).has_callback() ==> !r && final(self).calls() == old(self).calls(),
            old(self).has_callback() ==> final(self).calls().len() == old(self).calls().len() + 1,
            old(self).has_callback() ==> final(self).calls().drop_last() == old(self).calls(),
            old(self).has_callback() ==> final(self).calls().last().wide == (old(self).wide() is Some),
            old(self).has_callback() ==> final(self).calls().last().amount == reported_amount(len as nat),
            old(self).has_callback() ==> r == (final(self).calls().last().answer != 0),
    {
        let amount = progress_amount(len);
        if let Some(cb) = &mut self.wide {
            let answer = cb.process_data(amount);
            self.calls = Ghost(self.calls@.push(ReportRecord { wide: true, amount, answer }));
            callback_continues(answer)
        } else if let Some(cb) = &mut self.narrow {
            let answer = cb.process_data(amount);
            self.calls = Ghost(self.calls@.push(ReportRecord { wide: false, amount, answer }));
            callback_continues(answer)
        } else {
            false
        }
    }
}

} // verus!
