//! Helpers for the host's data layouts: lists of zero-terminated names, file
//! time stamps and split file sizes.

use vstd::prelude::*;

verus! {

/// The index of the first zero in `s` at or after `from`, or the length of `s`.
pub open spec fn first_zero(s: Seq<u16>, from: int) -> int
    decreases s.len() - from,
{
    if from >= s.len() {
        s.len() as int
    } else if s[from] == 0 {
        from
    } else {
        first_zero(s, from + 1)
    }
}

proof fn lemma_first_zero_bounds(s: Seq<u16>, from: int)
    requires
        0 <= from <= s.len(),
    ensures
        from <= first_zero(s, from) <= s.len(),
        forall|k: int| from <= k < first_zero(s, from) ==> s[k] != 0,
    decreases s.len() - from,
{
    if from < s.len() && s[from] != 0 {
        lemma_first_zero_bounds(s, from + 1);
    }
}

/// A walk over a list of names, each ended by a zero, the list ended by an
/// empty name (two zeros in a row). The end of the buffer ends the list too.
pub struct CListIter {
    units: Vec<u16>,
    pos: usize,
    finished: bool,
}

impl CListIter {
    /// The code units of the list.
    pub closed spec fn units(&self) -> Seq<u16> {
        self.units@
    }

    /// Where the next name starts.
    pub closed spec fn pos(&self) -> nat {
        self.pos as nat
    }

    /// The list's end was reached.
    pub closed spec fn finished(&self) -> bool {
        self.finished
    }

    pub closed spec fn wf(&self) -> bool {
        self.pos <= self.units@.len()
    }

    /// Starts at the first name of `units`.
    pub fn new(units: Vec<u16>) -> (r: CListIter)
        ensures
            r.wf(),
            r.units() == units@,
            r.pos() == 0,
            !r.finished(),
    {
        CListIter { units, pos: 0, finished: false }
    }

    /// The next name, without its terminating zero; none at the end of the
    /// list, and from then on.
    pub fn next(&mut self) -> (r: Option<Vec<u16>>)
        requires
            old(self).wf(),
        ensures
            final(self).wf(),
            final(self).units() == old(self).units(),
            old(self).finished() ==> r is None && final(self).finished(),
            !old(self).finished() && first_zero(old(self).units(), old(self).pos() as int)
                == old(self).pos() ==> r is None && final(self).finished(),
            !old(self).finished() && first_zero(old(self).units(), old(self).pos() as int)
                > old(self).pos() ==> r is Some && !final(self).finished() && r->Some_0@
                == old(self).units().subrange(
                old(self).pos() as int,
                first_zero(old(self).units(), old(self).pos() as int),
            ) && final(self).pos() == if first_zero(old(self).units(), old(self).pos() as int)
                < old(self).units().len() {
                first_zero(old(self).units(), old(self).pos() as int) + 1
            } else {
                old(self).units().len() as int
            },
    {
        if self.finished {
            return None;
        }
        let ghost s = self.units@;
        let ghost start = self.pos as int;
        proof {
            lemma_first_zero_bounds(s, start);
        }
        let n = self.units.len();
        let mut item: Vec<u16> = Vec::new();
        let mut i = self.pos;
        while i < n && self.units[i] != 0
            invariant
                s == self.units@,
                n == s.len(),
                start <= i <= first_zero(s, start),
                first_zero(s, start) <= n,
                forall|k: int| start <= k < first_zero(s, start) ==> s[k] != 0,
                item@ == s.subrange(start, i as int),
                first_zero(s, i as int) == first_zero(s, start),
                self.pos == start,
                !self.finished,
            decreases n - i,
        {
            proof {
                lemma_first_zero_bounds(s, i + 1);
            }
            item.push(self.units[i]);
            i = i + 1;
            proof {
                assert(item@ =~= s.subrange(start, i as int));
            }
        }
        if i == self.pos {
            self.finished = true;
            None
        } else {
            self.pos = if i < n {
                i + 1
            } else {
                n
            };
            Some(item)
        }
    }
}

/// The host's file time stamp: years since 1980 (the year held between 1980
/// and 2100) from bit 25, then month from bit 21, day from bit 16, hour from
/// bit 11, minute from bit 5, and seconds halved in the lowest bits.
pub open spec fn host_time(year: int, month: int, day: int, hour: int, minute: int, second: int) -> int {
    let y = if year < 1980 {
        1980
    } else if year > 2100 {
        2100
    } else {
        year
    };
    (y - 1980) * 0x2000000 + month * 0x200000 + day * 0x10000 + hour * 0x800 + minute * 0x20
        + second / 2
}

/// Packs a broken-down local time into the host's file time stamp.
pub fn totalcmd_time(year: i32, month: i32, day: i32, hour: i32, minute: i32, second: i32) -> (r:
    u32)
    requires
        1 <= month <= 12,
        1 <= day <= 31,
        0 <= hour <= 23,
        0 <= minute <= 59,
        0 <= second <= 61,
    ensures
        r == host_time(year as int, month as int, day as int, hour as int, minute as int, second as int),
{
    let y: i32 = if year < 1980 {
        1980
    } else if year > 2100 {
        2100
    } else {
        year
    };
    let packed: u32 = ((y - 1980) as u32) * 0x2000000 + (month as u32) * 0x200000 + (day as u32)
        * 0x10000 + (hour as u32) * 0x800 + (minute as u32) * 0x20 + (second as u32) / 2;
    packed
}

/// A file size as the host's extended record holds it: the low 24 bits, and
/// 24 bits from bit 32 on.
pub fn split_size(len: u64) -> (r: (u32, u32))
    ensures
        r.0 == len % 0x1000000,
        r.1 == (len / 0x100000000) % 0x1000000,
{
    let low = (len & 0xFFFFFF) as u32;
    let high = ((len >> 32) & 0xFFFFFF) as u32;
    assert(len & 0xFFFFFF == len % 0x1000000) by (bit_vector);
    assert((len >> 32) & 0xFFFFFF == (len / 0x100000000) % 0x1000000) by (bit_vector);
    (low, high)
}

} // verus!
