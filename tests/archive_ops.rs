use hrx::{HrxArchive, HrxEntryData};
use std::num::NonZeroUsize;
use totalcmd_hrx::archive::{delete_entry, install_file, load_archive, read_text, save_archive};
use totalcmd_hrx::progress::{ProcessDataProc, ProgressSlots};
use totalcmd_hrx::wcxhead::ArchiveError;
use totalcmd_hrx::{is_valid_archive, modify_archive, ArchiveState};

struct Answers {
    answers: Vec<i32>,
    seen: Vec<i32>,
}

impl ProcessDataProc for Answers {
    fn process_data(&mut self, size: i32) -> i32 {
        self.seen.push(size);
        if self.answers.is_empty() {
            1
        } else {
            self.answers.remove(0)
        }
    }
}

fn always_go_on() -> ProgressSlots<Answers, Answers> {
    let mut slots = ProgressSlots::new();
    slots.set_narrow(Answers { answers: vec![], seen: vec![] });
    slots
}

fn new_archive(boundary: usize) -> HrxArchive {
    HrxArchive::new(NonZeroUsize::new(boundary).unwrap())
}

fn parse_archive(text: &str) -> Result<HrxArchive, hrx::HrxError> {
    text.parse::<HrxArchive>()
}

fn sample_bytes() -> Vec<u8> {
    let mut a = new_archive(3);
    install_file(&mut a, "a.txt", "hi".to_string()).unwrap();
    install_file(&mut a, "dir/b.txt", String::new()).unwrap();
    save_archive(&mut a)
}

fn paths_of(a: &HrxArchive) -> Vec<String> {
    a.entries.keys().map(|p| p.as_ref().to_string()).collect()
}

fn body_of(a: &HrxArchive, path: &str) -> Option<String> {
    match &a.entries.get(path).unwrap().data {
        HrxEntryData::File { body } => body.clone(),
        HrxEntryData::Directory => None,
    }
}

#[test]
fn end_to_end_listing_extracting_and_deleting() {
    let bytes = sample_bytes();
    let mut st: ArchiveState<Answers, Answers> = ArchiveState::open(bytes.clone(), 7).unwrap();

    let h = st.read_header().unwrap();
    assert_eq!(h.name, "a.txt");
    assert_eq!(h.size, 2);
    assert_eq!(h.time, 7);
    assert_eq!(h.attr, 0);
    let x = st.extract_current_entry(None, Some("out.txt".to_string())).unwrap();
    assert_eq!(x.dest_name, "out.txt");
    assert_eq!(x.dest_path, None);
    assert_eq!(x.data, "hi");
    assert_eq!(x.data.as_bytes().len(), 2);

    let h = st.read_header().unwrap();
    assert_eq!(h.name, "dir\\b.txt");
    assert_eq!(h.size, 0);
    assert_eq!(h.attr, 0);
    assert!(st.read_header().is_none());
    assert!(st.read_header().is_none());

    let mut progress = always_go_on();
    let out = modify_archive(bytes, &vec!["a.txt".to_string()], &mut progress).unwrap();
    let after = load_archive(out).unwrap();
    assert_eq!(paths_of(&after), vec!["dir/b.txt".to_string()]);
    assert_eq!(progress.narrow_callback().unwrap().seen, vec![2]);
}

#[test]
fn next_entry_walks_in_document_order() {
    let mut st: ArchiveState<Answers, Answers> = ArchiveState::open(sample_bytes(), 0).unwrap();
    let (p, e) = st.next_entry().unwrap();
    assert_eq!(p.as_ref(), "a.txt");
    assert_eq!(e.data, HrxEntryData::File { body: Some("hi".to_string()) });
    let (p, _) = st.next_entry().unwrap();
    assert_eq!(p.as_ref(), "dir/b.txt");
    assert!(st.next_entry().is_none());
    assert!(st.next_entry().is_none());
}

#[test]
fn extraction_needs_a_current_entry_and_a_name() {
    let mut st: ArchiveState<Answers, Answers> = ArchiveState::open(sample_bytes(), 0).unwrap();
    assert_eq!(
        st.extract_current_entry(None, Some("x".to_string())).err(),
        Some(ArchiveError::EndOfArchive)
    );
    st.read_header().unwrap();
    assert_eq!(st.extract_current_entry(Some("d".to_string()), None).err(), Some(ArchiveError::Unsupported));
    let x = st.extract_current_entry(Some("d".to_string()), Some("n".to_string())).unwrap();
    assert_eq!(x.dest_path, Some("d".to_string()));
    st.read_header().unwrap();
    assert!(st.read_header().is_none());
    assert_eq!(
        st.extract_current_entry(None, Some("x".to_string())).err(),
        Some(ArchiveError::EndOfArchive)
    );
}

#[test]
fn directories_report_attribute_and_extract_empty() {
    let text = "<===> dir/\n<===> dir/f.txt\nbody";
    let mut st: ArchiveState<Answers, Answers> = ArchiveState::open(text.as_bytes().to_vec(), 0).unwrap();
    let h = st.read_header().unwrap();
    assert_eq!(h.name, "dir");
    assert_eq!(h.attr, 0x10);
    assert_eq!(h.size, 0);
    let x = st.extract_current_entry(None, Some("o".to_string())).unwrap();
    assert_eq!(x.data, "");
    let h = st.read_header().unwrap();
    assert_eq!(h.name, "dir\\f.txt");
    assert_eq!(h.size, 4);
}

#[test]
fn round_trip_keeps_entries() {
    let text = "<===> one.txt\nfirst\n<===>\na comment\n<===> sub/\n<===> sub/two.txt\nsecond\nline\n<===>\nroot comment";
    let d = parse_archive(text).unwrap();
    let mut d2 = parse_archive(text).unwrap();
    let saved = save_archive(&mut d2);
    let back = load_archive(saved.clone()).unwrap();
    assert_eq!(back.entries, d.entries);
    assert_eq!(back.comment, d.comment);
    let mut back2 = load_archive(saved.clone()).unwrap();
    assert_eq!(save_archive(&mut back2), saved);
}

#[test]
fn boundary_grows_past_colliding_content() {
    let mut a = new_archive(3);
    install_file(&mut a, "x.txt", "top\n<===>\nbelow\n<====>".to_string()).unwrap();
    let out = save_archive(&mut a);
    assert_eq!(a.boundary_length().get(), 5);
    let text = String::from_utf8(out.clone()).unwrap();
    assert!(text.starts_with("<=====> x.txt\n"));
    let back = load_archive(out).unwrap();
    assert_eq!(body_of(&back, "x.txt"), Some("top\n<===>\nbelow\n<====>".to_string()));
}

#[test]
fn boundary_kept_when_safe() {
    let mut a = new_archive(3);
    install_file(&mut a, "x.txt", "no collision <==> here".to_string()).unwrap();
    let out = save_archive(&mut a);
    assert_eq!(a.boundary_length().get(), 3);
    assert_eq!(String::from_utf8(out).unwrap(), "<===> x.txt\nno collision <==> here");
}

#[test]
fn install_appends_new_and_keeps_position_of_existing() {
    let mut a = new_archive(3);
    install_file(&mut a, "a", "1".to_string()).unwrap();
    install_file(&mut a, "b", "2".to_string()).unwrap();
    install_file(&mut a, "c", "3".to_string()).unwrap();
    install_file(&mut a, "a", "new".to_string()).unwrap();
    assert_eq!(paths_of(&a), vec!["a", "b", "c"]);
    assert_eq!(body_of(&a, "a"), Some("new".to_string()));
    install_file(&mut a, "d", "4".to_string()).unwrap();
    assert_eq!(paths_of(&a), vec!["a", "b", "c", "d"]);
}

#[test]
fn install_keeps_comment_of_replaced_entry() {
    let mut a = parse_archive("<===>\nnote\n<===> a.txt\nold").unwrap();
    install_file(&mut a, "a.txt", "new".to_string()).unwrap();
    let e = a.entries.get("a.txt").unwrap();
    assert_eq!(e.comment, Some("note".to_string()));
    assert_eq!(body_of(&a, "a.txt"), Some("new".to_string()));
}

#[test]
fn install_rejects_bad_paths() {
    let mut a = new_archive(3);
    assert_eq!(install_file(&mut a, "a:b", "x".to_string()), Err(ArchiveError::BadPath));
    assert_eq!(install_file(&mut a, "a/../b", "x".to_string()), Err(ArchiveError::BadPath));
    assert_eq!(install_file(&mut a, "/abs", "x".to_string()), Err(ArchiveError::BadPath));
    assert_eq!(install_file(&mut a, "", "x".to_string()), Err(ArchiveError::BadPath));
    assert!(a.entries.is_empty());
}

#[test]
fn delete_reports_content_bytes() {
    let mut a = new_archive(3);
    install_file(&mut a, "dir/é.txt", "héllo".to_string()).unwrap();
    install_file(&mut a, "b", "x".to_string()).unwrap();
    assert_eq!(delete_entry(&mut a, "dir\\é.txt"), Ok(6));
    assert_eq!(paths_of(&a), vec!["b"]);
    assert_eq!(delete_entry(&mut a, "dir\\é.txt"), Err(ArchiveError::NotFound));
    assert_eq!(paths_of(&a), vec!["b"]);
}

#[test]
fn deleting_a_missing_entry_fails_without_output() {
    let bytes = sample_bytes();
    let mut progress = always_go_on();
    let r = modify_archive(bytes, &vec!["missing.txt".to_string()], &mut progress);
    assert_eq!(r, Err(ArchiveError::NotFound));
    let r = modify_archive(sample_bytes(), &vec!["a.txt".to_string(), "a.txt".to_string()], &mut progress);
    assert_eq!(r, Err(ArchiveError::NotFound));
}

#[test]
fn deleting_stops_when_the_callback_declines() {
    let mut progress: ProgressSlots<Answers, Answers> = ProgressSlots::new();
    progress.set_wide(Answers { answers: vec![1, 0], seen: vec![] });
    let list = vec!["a.txt".to_string(), "dir/b.txt".to_string()];
    let r = modify_archive(sample_bytes(), &list, &mut progress);
    assert_eq!(r, Err(ArchiveError::Aborted));
    assert_eq!(progress.wide_callback().unwrap().seen, vec![2, 0]);
}

#[test]
fn deleting_without_callback_is_aborted() {
    let mut progress: ProgressSlots<Answers, Answers> = ProgressSlots::new();
    let r = modify_archive(sample_bytes(), &vec!["a.txt".to_string()], &mut progress);
    assert_eq!(r, Err(ArchiveError::Aborted));
    let r = modify_archive(sample_bytes(), &vec![], &mut progress);
    assert!(r.is_ok());
}

#[test]
fn loading_distinguishes_text_and_archive_errors() {
    assert_eq!(load_archive(vec![0xff, 0xfe]).err(), Some(ArchiveError::NotText));
    assert_eq!(load_archive(b"just text".to_vec()).err(), Some(ArchiveError::BadArchive));
    assert_eq!(load_archive(b"<===> a\n<===> a\n".to_vec()).err(), Some(ArchiveError::BadArchive));
    assert!(load_archive(b"<===> a\nx".to_vec()).is_ok());
    let mut progress = always_go_on();
    assert_eq!(modify_archive(vec![0xc3], &vec![], &mut progress), Err(ArchiveError::NotText));
}

#[test]
fn valid_archive_detection() {
    assert!(is_valid_archive(b"<===> a.txt\nhello".to_vec()));
    assert!(!is_valid_archive(b"hello".to_vec()));
    assert!(!is_valid_archive(vec![0x80]));
}

#[test]
fn read_text_decodes_utf8() {
    assert_eq!(read_text("żółw".as_bytes().to_vec()), Ok("żółw".to_string()));
    assert_eq!(read_text(vec![0xe2, 0x82]), Err(ArchiveError::NotText));
}

#[test]
fn session_callbacks_take_precedence_over_process_wide_ones() {
    let mut st: ArchiveState<Answers, Answers> = ArchiveState::open(sample_bytes(), 0).unwrap();
    let mut global = always_go_on();
    assert!(st.report_progress(&mut global, 5));
    assert_eq!(global.narrow_callback().unwrap().seen, vec![5]);
    st.set_narrow_callback(Answers { answers: vec![0], seen: vec![] });
    assert!(!st.report_progress(&mut global, 6));
    assert_eq!(global.narrow_callback().unwrap().seen, vec![5]);
    let mut empty: ProgressSlots<Answers, Answers> = ProgressSlots::new();
    let mut bare: ArchiveState<Answers, Answers> = ArchiveState::open(sample_bytes(), 0).unwrap();
    assert!(!bare.report_progress(&mut empty, 1));
}

#[test]
fn boundary_grows_past_a_colliding_root_comment() {
    let mut a = parse_archive("<====> f\nx\n<====>\nroot\n<===>\nend").unwrap();
    assert_eq!(a.boundary_length().get(), 4);
    a.set_boundary_length(NonZeroUsize::new(3).unwrap()).unwrap_err();
    a.comment = Some("root\n<====>\nend".to_string());
    let out = save_archive(&mut a);
    assert_eq!(a.boundary_length().get(), 5);
    let back = load_archive(out).unwrap();
    assert_eq!(back.comment, Some("root\n<====>\nend".to_string()));
}
