use hrx::{HrxArchive, HrxEntryData};
use totalcmd_hrx::archive::load_archive;
use totalcmd_hrx::pack::{parse_flags, PackStage};
use totalcmd_hrx::paths::{last_path_component, packed_entry_path, to_archive_separators, to_host_separators};
use totalcmd_hrx::progress::{callback_continues, progress_amount, ProcessDataProc, ProgressSlots};
use totalcmd_hrx::wcxhead::{ArchiveError, PK_PACK_ENCRYPT, PK_PACK_MOVE_FILES, PK_PACK_SAVE_PATHS};
use totalcmd_hrx::{PackJob, PackOptions};

struct Answers {
    answers: Vec<i32>,
    seen: Vec<i32>,
}

impl ProcessDataProc for Answers {
    fn process_data(&mut self, size: i32) -> i32 {
        self.seen.push(size);
        if self.answers.is_empty() {
            1
        } else {
            self.answers.remove(0)
        }
    }
}

fn going_on() -> ProgressSlots<Answers, Answers> {
    let mut slots = ProgressSlots::new();
    slots.set_narrow(Answers { answers: vec![], seen: vec![] });
    slots
}

const KEEP: PackOptions = PackOptions { move_originals: false, collapse_paths: false };

/// Runs a pack job the way a host does, taking each source's contents from `files`.
fn run(existing: Option<Vec<u8>>, sub: Option<&str>, names: &[&str], options: PackOptions, files: &[(&str, &str)],
       progress: &mut ProgressSlots<Answers, Answers>)
       -> Result<(Vec<u8>, Vec<String>), ArchiveError> {
    let list: Vec<String> = names.iter().map(|s| s.to_string()).collect();
    let mut job = PackJob::new(existing, sub.map(|s| s.to_string()), list, options)?;
    let mut deleted = vec![];
    while let Some(name) = job.pending_source() {
        let name = name.to_string();
        let contents = files.iter().find(|f| f.0 == name).unwrap().1.as_bytes().to_vec();
        if job.add_source(contents)? {
            deleted.push(name);
        }
        job.report_progress(progress)?;
    }
    Ok((job.finish(), deleted))
}

fn paths_of(a: &HrxArchive) -> Vec<String> {
    a.entries.keys().map(|p| p.as_ref().to_string()).collect()
}

fn body_of(a: &HrxArchive, path: &str) -> Option<String> {
    match &a.entries.get(path).unwrap().data {
        HrxEntryData::File { body } => body.clone(),
        HrxEntryData::Directory => None,
    }
}

#[test]
fn collapse_policy_stores_the_file_name_only() {
    let options = parse_flags(PK_PACK_SAVE_PATHS).unwrap();
    assert!(options.collapse_paths);
    let (out, _) = run(None, None, &["sub\\file.txt"], options, &[("sub\\file.txt", "data")], &mut going_on()).unwrap();
    let a = load_archive(out).unwrap();
    assert_eq!(paths_of(&a), vec!["file.txt"]);
    assert_eq!(packed_entry_path("sub/file.txt", None, true), "file.txt");
    assert_eq!(packed_entry_path("sub/file.txt", None, false), "sub/file.txt");
}

#[test]
fn sub_path_prefixes_the_stored_path() {
    assert_eq!(packed_entry_path("subdir2\\filename.ext", Some("subdirectory"), false),
               "subdirectory/subdir2/filename.ext");
    assert_eq!(packed_entry_path("subdir2\\filename.ext", Some("subdirectory"), true), "subdirectory/filename.ext");
    let (out, _) = run(None, Some("top"), &["a\\b.txt"], KEEP, &[("a\\b.txt", "x")], &mut going_on()).unwrap();
    assert_eq!(paths_of(&load_archive(out).unwrap()), vec!["top/a/b.txt"]);
}

#[test]
fn packing_the_same_file_twice_is_idempotent() {
    let files = [("f.txt", "same")];
    let (first, _) = run(None, None, &["f.txt"], KEEP, &files, &mut going_on()).unwrap();
    let (second, _) = run(Some(first.clone()), None, &["f.txt"], KEEP, &files, &mut going_on()).unwrap();
    assert_eq!(first, second);
    let (third, _) = run(Some(first), None, &["f.txt"], KEEP, &[("f.txt", "changed")], &mut going_on()).unwrap();
    let a = load_archive(third).unwrap();
    assert_eq!(paths_of(&a), vec!["f.txt"]);
    assert_eq!(body_of(&a, "f.txt"), Some("changed".to_string()));
}

#[test]
fn packing_appends_new_paths_and_overwrites_in_place() {
    let existing = b"<===> a\n1\n<===> b\n2".to_vec();
    let files = [("c", "3"), ("a", "one")];
    let (out, _) = run(Some(existing), None, &["c", "a"], KEEP, &files, &mut going_on()).unwrap();
    let a = load_archive(out).unwrap();
    assert_eq!(paths_of(&a), vec!["a", "b", "c"]);
    assert_eq!(body_of(&a, "a"), Some("one".to_string()));
}

#[test]
fn packing_stops_when_the_callback_declines() {
    let mut progress: ProgressSlots<Answers, Answers> = ProgressSlots::new();
    progress.set_narrow(Answers { answers: vec![1, 0], seen: vec![] });
    let list = vec!["x".to_string(), "y".to_string(), "z".to_string()];
    let mut job = PackJob::new(None, None, list, KEEP).unwrap();
    assert_eq!(job.pending_source(), Some("x"));
    assert_eq!(job.add_source(b"abc".to_vec()), Ok(false));
    assert_eq!(job.report_progress(&mut progress), Ok(()));
    assert_eq!(job.pending_source(), Some("y"));
    assert_eq!(job.add_source(b"de".to_vec()), Ok(false));
    assert_eq!(job.report_progress(&mut progress), Err(ArchiveError::Aborted));
    assert_eq!(job.pending_source(), None);
    assert_eq!(progress.narrow_callback().unwrap().seen, vec![3, 2]);
}

#[test]
fn packing_without_callback_is_aborted() {
    let mut none: ProgressSlots<Answers, Answers> = ProgressSlots::new();
    let r = run(None, None, &["a"], KEEP, &[("a", "x")], &mut none);
    assert_eq!(r.err(), Some(ArchiveError::Aborted));
}

#[test]
fn packing_reports_moves_and_sizes() {
    let options = parse_flags(PK_PACK_MOVE_FILES).unwrap();
    assert!(options.move_originals);
    assert!(!options.collapse_paths);
    let mut progress = going_on();
    let (_, deleted) = run(None, None, &["a", "b"], options, &[("a", "héllo"), ("b", "")], &mut progress).unwrap();
    assert_eq!(deleted, vec!["a", "b"]);
    assert_eq!(progress.narrow_callback().unwrap().seen, vec![6, 0]);
}

#[test]
fn packing_rejects_binary_and_bad_names() {
    let mut job = PackJob::new(None, None, vec!["bin".to_string()], KEEP).unwrap();
    assert_eq!(job.add_source(vec![0xff, 0x00]), Err(ArchiveError::NotText));
    let mut job = PackJob::new(None, None, vec!["a:b".to_string()], KEEP).unwrap();
    assert_eq!(job.add_source(b"x".to_vec()), Err(ArchiveError::BadPath));
    let mut job = PackJob::new(None, None, vec!["..\\up".to_string()], KEEP).unwrap();
    assert_eq!(job.add_source(b"x".to_vec()), Err(ArchiveError::BadPath));
}

#[test]
fn packing_onto_a_damaged_archive_fails() {
    assert_eq!(PackJob::new(Some(b"nothing".to_vec()), None, vec![], KEEP).err(), Some(ArchiveError::BadArchive));
    assert_eq!(PackJob::new(Some(vec![0xfe]), None, vec![], KEEP).err(), Some(ArchiveError::NotText));
}

#[test]
fn empty_pack_writes_an_empty_archive() {
    let (out, _) = run(None, None, &[], KEEP, &[], &mut going_on()).unwrap();
    assert!(out.is_empty());
}

#[test]
fn pack_flags() {
    assert_eq!(parse_flags(PK_PACK_ENCRYPT), Err(ArchiveError::Unsupported));
    assert_eq!(parse_flags(PK_PACK_ENCRYPT | PK_PACK_MOVE_FILES), Err(ArchiveError::Unsupported));
    assert_eq!(parse_flags(0), Ok(PackOptions { move_originals: false, collapse_paths: false }));
    assert_eq!(parse_flags(3), Ok(PackOptions { move_originals: true, collapse_paths: true }));
}

#[test]
fn job_stage_follows_the_steps() {
    let mut job = PackJob::new(None, None, vec!["a".to_string()], KEEP).unwrap();
    assert_eq!(job.add_source(b"12345".to_vec()), Ok(false));
    let mut progress = going_on();
    assert_eq!(job.report_progress(&mut progress), Ok(()));
    assert_eq!(job.pending_source(), None);
    let _ = PackStage::Installed(5);
}

#[test]
fn separators_are_converted() {
    assert_eq!(to_archive_separators("a\\b\\c"), "a/b/c");
    assert_eq!(to_archive_separators("plain"), "plain");
    assert_eq!(to_host_separators("a/b/c"), "a\\b\\c");
    assert_eq!(last_path_component("x/y/z.txt"), "z.txt");
    assert_eq!(last_path_component("z.txt"), "z.txt");
    assert_eq!(last_path_component("x/"), "");
}

#[test]
fn progress_amounts_are_clamped() {
    assert_eq!(progress_amount(10), 10);
    assert_eq!(progress_amount(i32::MAX as usize), i32::MAX);
    assert_eq!(progress_amount(i32::MAX as usize + 1), i32::MAX);
    assert!(callback_continues(1));
    assert!(callback_continues(-1));
    assert!(!callback_continues(0));
}

#[test]
fn wide_callback_takes_precedence() {
    let mut slots: ProgressSlots<Answers, Answers> = ProgressSlots::new();
    assert!(!slots.report(1));
    slots.set_narrow(Answers { answers: vec![1], seen: vec![] });
    slots.set_wide(Answers { answers: vec![0], seen: vec![] });
    assert!(!slots.report(4));
    assert_eq!(slots.wide_callback().unwrap().seen, vec![4]);
    assert!(slots.narrow_callback().unwrap().seen.is_empty());
}
