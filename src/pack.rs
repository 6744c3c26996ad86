//! Packing: adding files from the host to an archive, one at a time, as a
//! job that the host drives. The job says which source to read next, installs
//! what was read, says whether the source is to be deleted, reports progress
//! and finally yields the bytes to store.

use vstd::prelude::*;
use vstd::utf8::*;
use hrx::{HrxArchive, HrxEntry};
use crate::archive::{
    install_file, installed, least_safe_boundary, load_archive, load_error, loaded,
    read_text, save_archive,
};
use crate::document::{
    archive_boundary, archive_comment, archive_entries, keys_unique, new_archive, serialised,
    string_opt_view, valid_entry_path,
};
use crate::paths::{packed_entry_path, packed_path};
use crate::progress::{reported_amount, ProcessDataProc, ProgressSlots};
use crate::wcxhead::{ArchiveError, PK_PACK_ENCRYPT, PK_PACK_MOVE_FILES, PK_PACK_SAVE_PATHS};

verus! {

/// The boundary length of a new archive.
pub const NEW_ARCHIVE_BOUNDARY: usize = 3;

/// How a pack request treats its files.
#[derive(Clone, Copy, Debug, PartialEq, Eq, Structural)]
pub struct PackOptions {
    /// Delete each source once it is packed.
    pub move_originals: bool,
    /// Store each file under the last component of its name only. The host
    /// sets this with its "save paths" flag; the effect is kept as it stands.
    pub collapse_paths: bool,
}

/// Reads the host's pack flags. Encryption is never offered.
pub fn parse_flags(flags: i32) -> (r: Result<PackOptions, ArchiveError>)
    ensures
        r is Err <==> flags & PK_PACK_ENCRYPT != 0,
        r is Err ==> r == Err::<PackOptions, ArchiveError>(ArchiveError::Unsupported),
        r matches Ok(o) ==> o.move_originals == (flags & PK_PACK_MOVE_FILES != 0)
            && o.collapse_paths == (flags & PK_PACK_SAVE_PATHS != 0),
{
    if flags & PK_PACK_ENCRYPT != 0 {
        return Err(ArchiveError::Unsupported);
    }
    Ok(
        PackOptions {
            move_originals: flags & PK_PACK_MOVE_FILES != 0,
            collapse_paths: flags & PK_PACK_SAVE_PATHS != 0,
        },
    )
}

/// Where a pack job stands.
#[derive(Clone, Copy, Debug, PartialEq, Eq, Structural)]
pub enum PackStage {
    /// Waiting for the contents of the next source, if any is left.
    Reading,
    /// A source of this many bytes was installed; its progress is not yet reported.
    Installed(usize),
    /// The progress callback asked to stop; nothing more is done.
    Aborted,
}

/// One pack request in progress.
pub struct PackJob {
    archive: HrxArchive,
    sub_path: Option<String>,
    options: PackOptions,
    add_list: Vec<String>,
    next: usize,
    stage: PackStage,
}

impl PackJob {
    /// The archive being filled.
    pub closed spec fn archive(&self) -> HrxArchive {
        self.archive
    }

    /// The names of the files to pack, relative to the source directory.
    pub closed spec fn add_list(&self) -> Seq<String> {
        self.add_list@
    }

    /// The directory within the archive that files are packed below, if any.
    pub closed spec fn sub_path(&self) -> Option<Seq<char>> {
        string_opt_view(self.sub_path)
    }

    pub closed spec fn options(&self) -> PackOptions {
        self.options
    }

    /// How many files of the add list were packed and reported.
    pub closed spec fn done(&self) -> nat {
        self.next as nat
    }

    pub closed spec fn stage(&self) -> PackStage {
        self.stage
    }

    /// The job's parts agree.
    pub closed spec fn wf(&self) -> bool {
        &&& self.next <= self.add_list@.len()
        &&& keys_unique(archive_entries(self.archive))
        &&& (self.stage matches PackStage::Installed(_) ==> self.next < self.add_list@.len())
    }

    /// The source the host is to read next, if any.
    pub open spec fn pending(&self) -> Option<Seq<char>> {
        if self.stage() == PackStage::Reading && self.done() < self.add_list().len() {
            Some(self.add_list()[self.done() as int]@)
        } else {
            None
        }
    }

    /// Every file was packed and reported: the archive may be stored.
    pub open spec fn complete(&self) -> bool {
        self.stage() == PackStage::Reading && self.done() == self.add_list().len()
    }

    /// The entry path of the file that is packed next.
    pub open spec fn target(&self) -> Seq<char> {
        packed_path(
            self.add_list()[self.done() as int]@,
            self.sub_path(),
            self.options().collapse_paths,
        )
    }

    /// Starts a pack job on the archive stored as `existing`, or on a new,
    /// empty archive when there is none yet.
    pub fn new(
        existing: Option<Vec<u8>>,
        sub_path: Option<String>,
        add_list: Vec<String>,
        options: PackOptions,
    ) -> (r: Result<PackJob, ArchiveError>)
        ensures
            existing matches Some(b) ==> (r is Ok <==> loaded(b@) is Some),
            existing matches Some(b) ==> (r matches Err(e) ==> e == load_error(b@)),
            existing matches Some(b) ==> (r matches Ok(j) ==> loaded(b@) == Some(j.archive())),
            existing is None ==> r is Ok,
            existing is None ==> (r matches Ok(j) ==> archive_entries(j.archive()) == Seq::<
                (Seq<char>, HrxEntry),
            >::empty() && archive_comment(j.archive()) is None && archive_boundary(j.archive())
                == NEW_ARCHIVE_BOUNDARY),
            r matches Ok(j) ==> j.wf() && j.add_list() == add_list@ && j.sub_path()
                == string_opt_view(sub_path) && j.options() == options && j.done() == 0
                && j.stage() == PackStage::Reading,
    {
        let archive = match existing {
            Some(b) => load_archive(b)?,
            None => new_archive(NEW_ARCHIVE_BOUNDARY),
        };
        Ok(PackJob { archive, sub_path, options, add_list, next: 0, stage: PackStage::Reading })
    }

    /// The name of the source the host is to read next, relative to the source
    /// directory; none once every file is packed or the job was aborted.
    pub fn pending_source(&self) -> (r: Option<&str>)
        requires
            self.wf(),
        ensures
            r is Some <==> self.pending() is Some,
            r matches Some(s) ==> s@ == self.pending()->Some_0,
    {
        if self.stage == PackStage::Reading && self.next < self.add_list.len() {
            Some(self.add_list[self.next].as_str())
        } else {
            None
        }
    }

    /// Installs the contents of the pending source as a file at its entry
    /// path, replacing the body of an entry already there in place, or
    /// appending a new one. Answers whether the host is now to delete the
    /// source. Contents that are not UTF-8 fail as not text, a name that gives
    /// no legal entry path as a bad path.
    pub fn add_source(&mut self, contents: Vec<u8>) -> (r: Result<bool, ArchiveError>)
        requires
            old(self).wf(),
            old(self).pending() is Some,
        ensures
            final(self).wf(),
            r is Ok <==> valid_utf8(contents@) && valid_entry_path(old(self).target()),
            !valid_utf8(contents@) ==> r == Err::<bool, ArchiveError>(ArchiveError::NotText),
            valid_utf8(contents@) && !valid_entry_path(old(self).target()) ==> r == Err::<
                bool,
                ArchiveError,
            >(ArchiveError::BadPath),
            r is Ok ==> exists|s: String|
                s@ == decode_utf8(contents@) && archive_entries(final(self).archive())
                    == installed(archive_entries(old(self).archive()), old(self).target(), s),
            r is Ok ==> r == Ok::<bool, ArchiveError>(old(self).options().move_originals),
            r is Ok ==> final(self).stage() == PackStage::Installed(contents@.len() as usize),
            r is Err ==> final(self).stage() == old(self).stage(),
            archive_comment(final(self).archive()) == archive_comment(old(self).archive()),
            archive_boundary(final(self).archive()) == archive_boundary(old(self).archive()),
            final(self).add_list() == old(self).add_list(),
            final(self).sub_path() == old(self).sub_path(),
            final(self).options() == old(self).options(),
            final(self).done() == old(self).done(),
    {
        let len = contents.len();
        let text = read_text(contents)?;
        let ghost s = text;
        let path = match &self.sub_path {
            Some(p) => packed_entry_path(
                self.add_list[self.next].as_str(),
                Some(p.as_str()),
                self.options.collapse_paths,
            ),
            None => packed_entry_path(
                self.add_list[self.next].as_str(),
                None,
                self.options.collapse_paths,
            ),
        };
        install_file(&mut self.archive, path.as_str(), text)?;
        self.stage = PackStage::Installed(len);
        Ok(self.options.move_originals)
    }

    /// Reports the size of the source just installed. When the callback
    /// declines, the job is aborted: it asks for no further source and cannot
    /// be finished, so nothing is stored.
    pub fn report_progress<N: ProcessDataProc, W: ProcessDataProc>(
        &mut self,
        progress: &mut ProgressSlots<N, W>,
    ) -> (r: Result<(), ArchiveError>)
        requires
            old(self).wf(),
            old(self).stage() is Installed,
        ensures
            final(self).wf(),
            r is Ok ==> final(self).done() == old(self).done() + 1 && final(self).stage()
                == PackStage::Reading,
            r is Err ==> r == Err::<(), ArchiveError>(ArchiveError::Aborted) && final(self).stage()
                == PackStage::Aborted && final(self).done() == old(self).done(),
            !old(progress).has_callback() ==> r is Err && final(progress).calls() == old(
                progress,
            ).calls(),
            old(progress).has_callback() ==> final(progress).calls().len() == old(progress).calls().len() + 1,
            old(progress).has_callback() ==> final(progress).calls().drop_last() == old(progress).calls(),
            old(progress).has_callback() ==> final(progress).calls().last().amount == reported_amount(
                old(self).stage()->Installed_0 as nat,
            ),
            old(progress).has_callback() ==> (r is Ok <==> final(progress).calls().last().answer != 0),
            final(self).archive() == old(self).archive(),
            final(self).add_list() == old(self).add_list(),
            final(self).sub_path() == old(self).sub_path(),
            final(self).options() == old(self).options(),
    {
        let n = match self.stage {
            PackStage::Installed(n) => n,
            _ => 0,
        };
        let total = self.add_list.len();
        if progress.report(n) {
            assert(self.next < total);
            self.next = self.next + 1;
            self.stage = PackStage::Reading;
            Ok(())
        } else {
            self.stage = PackStage::Aborted;
            Err(ArchiveError::Aborted)
        }
    }

    /// Ends a complete job: the boundary is made safe for the new content and
    /// the archive is serialised to the bytes to store.
    pub fn finish(self) -> (r: Vec<u8>)
        requires
            self.wf(),
            self.complete(),
        ensures
            exists|n: nat|
                least_safe_boundary(
                    archive_entries(self.archive()),
                    archive_comment(self.archive()),
                    archive_boundary(self.archive()),
                    n,
                ) && r@ == serialised(
                    archive_entries(self.archive()),
                    archive_comment(self.archive()),
                    n,
                ),
    {
        let mut archive = self.archive;
        let out = save_archive(&mut archive);
        proof {
            let n = archive_boundary(archive);
            assert(least_safe_boundary(
                archive_entries(self.archive()),
                archive_comment(self.archive()),
                archive_boundary(self.archive()),
                n,
            ));
        }
        out
    }
}

/// Once the progress callback has asked a job to stop, the job asks for no
/// further source and cannot be finished: no later file is read and nothing
/// is stored.
pub proof fn lemma_aborted_job_stops(job: PackJob)
    requires
        job.stage() == PackStage::Aborted,
    ensures
        job.pending() is None,
        !job.complete(),
{
}

} // verus!
