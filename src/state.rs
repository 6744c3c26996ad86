//! An open archive: the document, the time stamp shown for its entries, the
//! session's progress callbacks, and a forward-only cursor over the entries.

use vstd::prelude::*;
use hrx::{HrxArchive, HrxEntry, HrxEntryData, HrxPath};
use crate::archive::{content_bytes, load_archive, load_error, loaded};
use crate::document::{archive_entries, entry_at, entry_body, entry_count, path_str, path_text};
use crate::paths::{host_style, to_host_separators};
use crate::progress::{ProcessDataProc, ProgressSlots};
use crate::wcxhead::{ArchiveError, FILE_ATTRIBUTE_DIRECTORY, PK_EXTRACT, PK_SKIP, PK_TEST};

verus! {

/// What the host is told of one entry.
pub struct EntryHeader {
    /// The entry path, written with the host's separator.
    pub name: String,
    /// The number of bytes of the entry's content.
    pub size: usize,
    /// The archive's time stamp, in the host's encoding.
    pub time: i32,
    /// Directory or file attribute.
    pub attr: i32,
}

/// Where and what to write when the current entry is extracted.
pub struct Extraction {
    /// The directory to write into, when the host gave one.
    pub dest_path: Option<String>,
    /// The file name, or the whole destination path when no directory is given.
    pub dest_name: String,
    /// The text to write: a file's body, or nothing.
    pub data: String,
}

/// The attribute reported for an entry.
pub open spec fn entry_attr(e: HrxEntry) -> i32 {
    match e.data {
        HrxEntryData::File { .. } => 0,
        HrxEntryData::Directory => FILE_ATTRIBUTE_DIRECTORY,
    }
}

/// The text written when an entry is extracted.
pub open spec fn extracted_text(e: HrxEntry) -> Seq<char> {
    match entry_body(e) {
        Some(t) => t,
        None => Seq::empty(),
    }
}

/// Reads the host's request for the current entry: skipping and testing need
/// no work, extracting does, and any other request is unsupported.
pub fn wants_extraction(operation: i32) -> (r: Result<bool, ArchiveError>)
    ensures
        operation == PK_SKIP || operation == PK_TEST ==> r == Ok::<bool, ArchiveError>(false),
        operation == PK_EXTRACT ==> r == Ok::<bool, ArchiveError>(true),
        operation != PK_SKIP && operation != PK_TEST && operation != PK_EXTRACT ==> r == Err::<
            bool,
            ArchiveError,
        >(ArchiveError::Unsupported),
{
    if operation == PK_SKIP || operation == PK_TEST {
        Ok(false)
    } else if operation == PK_EXTRACT {
        Ok(true)
    } else {
        Err(ArchiveError::Unsupported)
    }
}

/// An open archive.
pub struct ArchiveState<N, W> {
    arch: HrxArchive,
    mod_time: i32,
    progress: ProgressSlots<N, W>,
    position: usize,
    current: Option<usize>,
}

impl<N: ProcessDataProc, W: ProcessDataProc> ArchiveState<N, W> {
    /// The archive's document.
    pub closed spec fn archive(&self) -> HrxArchive {
        self.arch
    }

    /// The time stamp shown for every entry.
    pub closed spec fn mod_time(&self) -> i32 {
        self.mod_time
    }

    /// The callbacks registered for this archive.
    pub closed spec fn progress(&self) -> ProgressSlots<N, W> {
        self.progress
    }

    /// How far the cursor went: the number of entries handed out so far.
    pub closed spec fn position(&self) -> nat {
        self.position as nat
    }

    /// The index of the entry handed out last, while the cursor is not exhausted.
    pub closed spec fn current(&self) -> Option<nat> {
        match self.current {
            Some(i) => Some(i as nat),
            None => None,
        }
    }

    pub closed spec fn wf(&self) -> bool {
        &&& self.position <= archive_entries(self.arch).len()
        &&& (self.current matches Some(i) ==> i < self.position)
    }

    /// Opens the archive stored as `contents`. `mod_time` is the stored
    /// archive's modification time in the host's encoding; the format keeps
    /// no time per entry, so every entry shows this one.
    pub fn open(contents: Vec<u8>, mod_time: i32) -> (r: Result<Self, ArchiveError>)
        ensures
            r is Ok <==> loaded(contents@) is Some,
            r matches Err(e) ==> e == load_error(contents@),
            r matches Ok(s) ==> s.wf() && loaded(contents@) == Some(s.archive()) && s.mod_time()
                == mod_time && s.position() == 0 && s.current() is None
                && !s.progress().has_callback(),
    {
        let arch = load_archive(contents)?;
        Ok(ArchiveState { arch, mod_time, progress: ProgressSlots::new(), position: 0, current: None })
    }

    /// Moves the cursor to the next entry in document order and hands it out;
    /// none once the entries are exhausted, and from then on.
    pub fn next_entry(&mut self) -> (r: Option<(&HrxPath, &HrxEntry)>)
        requires
            old(self).wf(),
        ensures
            final(self).wf(),
            final(self).archive() == old(self).archive(),
            final(self).mod_time() == old(self).mod_time(),
            final(self).progress() == old(self).progress(),
            old(self).position() < archive_entries(old(self).archive()).len() ==> final(self).position()
                == old(self).position() + 1 && final(self).current() == Some(old(self).position()),
            old(self).position() == archive_entries(old(self).archive()).len() ==> final(self).position()
                == old(self).position() && final(self).current() is None,
            r is Some <==> old(self).position() < archive_entries(old(self).archive()).len(),
            r is Some ==> path_text(*r->Some_0.0) == archive_entries(
                old(self).archive(),
            )[old(self).position() as int].0,
            r is Some ==> *r->Some_0.1 == archive_entries(
                old(self).archive(),
            )[old(self).position() as int].1,
    {
        let count = entry_count(&self.arch);
        if self.position < count {
            self.current = Some(self.position);
            self.position = self.position + 1;
        } else {
            self.current = None;
        }
        match self.current {
            Some(i) => entry_at(&self.arch, i),
            None => None,
        }
    }

    /// Moves to the next entry and describes it for the host: its path in
    /// host style, its content size, the archive's time stamp and whether it
    /// is a directory. None once the entries are exhausted.
    pub fn read_header(&mut self) -> (r: Option<EntryHeader>)
        requires
            old(self).wf(),
        ensures
            final(self).wf(),
            final(self).archive() == old(self).archive(),
            final(self).mod_time() == old(self).mod_time(),
            final(self).progress() == old(self).progress(),
            final(self).current() is Some <==> r is Some,
            r is Some <==> old(self).position() < archive_entries(old(self).archive()).len(),
            r is Some ==> final(self).current() == Some(old(self).position()),
            r matches Some(h) ==> h.name@ == host_style(
                archive_entries(old(self).archive())[old(self).position() as int].0,
            ) && h.size == content_bytes(
                archive_entries(old(self).archive())[old(self).position() as int].1,
            ) && h.time == old(self).mod_time() && h.attr == entry_attr(
                archive_entries(old(self).archive())[old(self).position() as int].1,
            ),
    {
        let time = self.mod_time;
        match self.next_entry() {
            Some((path, entry)) => {
                let (size, attr) = match &entry.data {
                    HrxEntryData::File { body } => match body {
                        Some(text) => (text.as_str().len(), 0),
                        None => (0, 0),
                    },
                    HrxEntryData::Directory => (0, FILE_ATTRIBUTE_DIRECTORY),
                };
                let name = to_host_separators(path_str(path));
                Some(EntryHeader { name, size, time, attr })
            },
            None => None,
        }
    }

    /// What extracting the current entry writes, and where: the destination
    /// is `dest_name` within `dest_path` when a directory is given, or
    /// `dest_name` alone. Fails as end of archive when no entry is current,
    /// and as unsupported when no destination name is given.
    pub fn extract_current_entry(&self, dest_path: Option<String>, dest_name: Option<String>) -> (r:
        Result<Extraction, ArchiveError>)
        requires
            self.wf(),
        ensures
            self.current() is None ==> r == Err::<Extraction, ArchiveError>(
                ArchiveError::EndOfArchive,
            ),
            self.current() is Some && dest_name is None ==> r == Err::<Extraction, ArchiveError>(
                ArchiveError::Unsupported,
            ),
            r is Ok <==> self.current() is Some && dest_name is Some,
            r matches Ok(x) ==> x.dest_path == dest_path && x.dest_name == dest_name->Some_0
                && x.data@ == extracted_text(
                archive_entries(self.archive())[self.current()->Some_0 as int].1,
            ),
    {
        let i = match self.current {
            Some(i) => i,
            None => {
                return Err(ArchiveError::EndOfArchive);
            },
        };
        let (_, entry) = entry_at(&self.arch, i).unwrap();
        let data = match &entry.data {
            HrxEntryData::File { body } => match body {
                Some(text) => text.clone(),
                None => String::new(),
            },
            HrxEntryData::Directory => String::new(),
        };
        match dest_name {
            Some(name) => Ok(Extraction { dest_path, dest_name: name, data }),
            None => Err(ArchiveError::Unsupported),
        }
    }

    /// Registers this archive's callback for narrow strings.
    pub fn set_narrow_callback(&mut self, cb: N)
        ensures
            final(self).progress().narrow() == Some(cb),
            final(self).progress().wide() == old(self).progress().wide(),
            final(self).archive() == old(self).archive(),
            final(self).mod_time() == old(self).mod_time(),
            final(self).position() == old(self).position(),
            final(self).current() == old(self).current(),
            final(self).wf() == old(self).wf(),
    {
        self.progress.set_narrow(cb);
    }

    /// Registers this archive's callback for wide strings.
    pub fn set_wide_callback(&mut self, cb: W)
        ensures
            final(self).progress().wide() == Some(cb),
            final(self).progress().narrow() == old(self).progress().narrow(),
            final(self).archive() == old(self).archive(),
            final(self).mod_time() == old(self).mod_time(),
            final(self).position() == old(self).position(),
            final(self).current() == old(self).current(),
            final(self).wf() == old(self).wf(),
    {
        self.progress.set_wide(cb);
    }

    /// Reports processed bytes for an operation on this archive: to the
    /// archive's own callbacks when one is registered, else to the
    /// process-wide ones. True when the operation may go on.
    pub fn report_progress(&mut self, global: &mut ProgressSlots<N, W>, len: usize) -> (r: bool)
        ensures
            old(self).progress().has_callback() ==> *final(global) == *old(global),
            old(self).progress().has_callback() ==> final(self).progress().calls().len()
                == old(self).progress().calls().len() + 1,
            old(self).progress().has_callback() ==> r == (final(self).progress().calls().last().answer
                != 0),
            !old(self).progress().has_callback() ==> final(self).progress() == old(self).progress(),
            !old(self).progress().has_callback() && old(global).has_callback() ==> final(global).calls().len() == old(global).calls().len() + 1,
            !old(self).progress().has_callback() && old(global).has_callback() ==> r == (final(global).calls().last().answer != 0),
            !old(self).progress().has_callback() && !old(global).has_callback() ==> !r,
            final(self).archive() == old(self).archive(),
            final(self).position() == old(self).position(),
            final(self).current() == old(self).current(),
    {
        if self.progress.any_registered() {
            self.progress.report(len)
        } else {
            global.report(len)
        }
    }
}

} // verus!
