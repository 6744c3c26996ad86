//! Loading, saving and editing an archive document: decoding and parsing,
//! choosing a boundary that no content collides with, installing packed files
//! and deleting entries.

use vstd::prelude::*;
use vstd::utf8::*;
use hrx::{HrxArchive, HrxEntry, HrxEntryData};
use crate::document::{
    archive_boundary, archive_comment, archive_entries, boundary_safe, boundary_text, contains_entry,
    contains_text, entry_at, entry_body, entry_count, entry_safe, has_key, insert_entry,
    keys_unique, parse_archive, parse_path, parsed_archive, remove_entry, replace_entry_data,
    root_comment, serialise_archive, serialised, set_boundary_length, string_opt_view,
    validate_content, valid_entry_path, boundary_length,
};
use crate::paths::{archive_style, to_archive_separators};
use crate::progress::{reported_amount, ProcessDataProc, ProgressSlots, ReportRecord};
use crate::wcxhead::ArchiveError;

verus! {

/// The archive that a stored byte sequence holds: its UTF-8 text, parsed.
pub open spec fn loaded(bytes: Seq<u8>) -> Option<HrxArchive> {
    if valid_utf8(bytes) {
        parsed_archive(decode_utf8(bytes))
    } else {
        None
    }
}

/// The error that loading fails with when `loaded(bytes)` is none.
pub open spec fn load_error(bytes: Seq<u8>) -> ArchiveError {
    if valid_utf8(bytes) {
        ArchiveError::BadArchive
    } else {
        ArchiveError::NotText
    }
}

/// Relies on `String::from_utf8`: accepted exactly when the bytes are valid
/// UTF-8, and decoded as such.
#[verifier::external_body]
fn decode_text(bytes: Vec<u8>) -> (r: Option<String>)
    ensures
        r is Some <==> valid_utf8(bytes@),
        r matches Some(s) ==> s@ == decode_utf8(bytes@),
{
    String::from_utf8(bytes).ok()
}

/// Decodes stored content that must be text.
pub fn read_text(bytes: Vec<u8>) -> (r: Result<String, ArchiveError>)
    ensures
        r is Ok <==> valid_utf8(bytes@),
        r matches Ok(s) ==> s@ == decode_utf8(bytes@),
        r is Err ==> r == Err::<String, ArchiveError>(ArchiveError::NotText),
{
    match decode_text(bytes) {
        Some(s) => Ok(s),
        None => Err(ArchiveError::NotText),
    }
}

/// Parses the stored bytes of an archive: content that is not UTF-8 fails as
/// not text, text that is no archive fails as a bad archive.
pub fn load_archive(bytes: Vec<u8>) -> (r: Result<HrxArchive, ArchiveError>)
    ensures
        r is Ok <==> loaded(bytes@) is Some,
        r matches Ok(a) ==> loaded(bytes@) == Some(a) && keys_unique(archive_entries(a)),
        r matches Err(e) ==> e == load_error(bytes@),
{
    let text = read_text(bytes)?;
    match parse_archive(text.as_str()) {
        Ok(a) => Ok(a),
        Err(_) => Err(ArchiveError::BadArchive),
    }
}

/// Whether stored bytes hold a well-formed archive.
pub fn is_valid_archive(bytes: Vec<u8>) -> (r: bool)
    ensures
        r == loaded(bytes@) is Some,
{
    load_archive(bytes).is_ok()
}

/// `n` is the shortest boundary length of at least `from` that occurs in no
/// comment and no file body.
pub open spec fn least_safe_boundary(
    entries: Seq<(Seq<char>, HrxEntry)>,
    comment: Option<Seq<char>>,
    from: nat,
    n: nat,
) -> bool {
    &&& from <= n
    &&& boundary_safe(entries, comment, n)
    &&& forall|m: nat| from <= m < n ==> !#[trigger] boundary_safe(entries, comment, m)
}

/// Every comment and file body is at most `m` characters long.
pub open spec fn texts_within(
    entries: Seq<(Seq<char>, HrxEntry)>,
    comment: Option<Seq<char>>,
    m: nat,
) -> bool {
    &&& (comment matches Some(t) ==> t.len() <= m)
    &&& forall|i: int|
        0 <= i < entries.len() ==> (string_opt_view(#[trigger] entries[i].1.comment) matches Some(
            t,
        ) ==> t.len() <= m) && (entry_body(entries[i].1) matches Some(t) ==> t.len() <= m)
}

/// A boundary longer than every text cannot occur in any of them.
pub proof fn lemma_long_boundary_safe(
    entries: Seq<(Seq<char>, HrxEntry)>,
    comment: Option<Seq<char>>,
    m: nat,
    n: nat,
)
    requires
        texts_within(entries, comment, m),
        m < n + 3,
    ensures
        boundary_safe(entries, comment, n),
{
    assert(boundary_text(n).len() == n + 3);
    assert forall|i: int| 0 <= i < entries.len() implies entry_safe(#[trigger] entries[i].1, n) by {
        if string_opt_view(entries[i].1.comment) is Some {
            assert(!contains_text(string_opt_view(entries[i].1.comment)->Some_0, boundary_text(n)));
        }
        if entry_body(entries[i].1) is Some {
            assert(!contains_text(entry_body(entries[i].1)->Some_0, boundary_text(n)));
        }
    }
}

fn opt_text_len(o: Option<&String>) -> (r: usize)
    ensures
        o matches Some(s) ==> r == s@.len(),
        o is None ==> r == 0,
{
    match o {
        Some(s) => s.as_str().unicode_len(),
        None => 0,
    }
}

/// The length of the longest comment or file body of an archive.
fn longest_text(a: &HrxArchive) -> (r: usize)
    ensures
        texts_within(archive_entries(*a), archive_comment(*a), r as nat),
{
    let ghost entries = archive_entries(*a);
    let mut m = opt_text_len(root_comment(a));
    let count = entry_count(a);
    let mut i: usize = 0;
    while i < count
        invariant
            count == entries.len(),
            entries == archive_entries(*a),
            i <= count,
            archive_comment(*a) matches Some(t) ==> t.len() <= m,
            forall|j: int|
                0 <= j < i ==> (string_opt_view(#[trigger] entries[j].1.comment) matches Some(t)
                    ==> t.len() <= m) && (entry_body(entries[j].1) matches Some(t) ==> t.len()
                    <= m),
        decreases count - i,
    {
        let (_, e) = entry_at(a, i).unwrap();
        let c = opt_text_len(e.comment.as_ref());
        let b = match &e.data {
            HrxEntryData::File { body } => opt_text_len(body.as_ref()),
            HrxEntryData::Directory => 0,
        };
        if c > m {
            m = c;
        }
        if b > m {
            m = b;
        }
        i = i + 1;
    }
    m
}

/// Makes the boundary long enough for the current content, lengthening it one
/// step at a time from the current length, and serialises the archive.
/// Entries and comments are untouched; the boundary becomes the shortest safe
/// length that is at least the current one.
pub fn save_archive(a: &mut HrxArchive) -> (r: Vec<u8>)
    ensures
        archive_entries(*final(a)) == archive_entries(*old(a)),
        archive_comment(*final(a)) == archive_comment(*old(a)),
        least_safe_boundary(
            archive_entries(*old(a)),
            archive_comment(*old(a)),
            archive_boundary(*old(a)),
            archive_boundary(*final(a)),
        ),
        r@ == serialised(
            archive_entries(*final(a)),
            archive_comment(*final(a)),
            archive_boundary(*final(a)),
        ),
{
    let ghost e0 = archive_entries(*a);
    let ghost c0 = archive_comment(*a);
    let ghost b0 = archive_boundary(*a);
    if !validate_content(a) {
        let m = longest_text(a);
        let b = boundary_length(a);
        proof {
            if m < b + 3 {
                lemma_long_boundary_safe(e0, c0, m as nat, b as nat);
            }
        }
        let mut bl: usize = b + 1;
        loop
            invariant_except_break
                archive_boundary(*a) == b0,
            invariant
                archive_entries(*a) == e0,
                archive_comment(*a) == c0,
                texts_within(e0, c0, m as nat),
                b0 < bl,
                bl + 2 <= m,
                forall|k: nat| b0 <= k < bl ==> !#[trigger] boundary_safe(e0, c0, k),
            ensures
                archive_entries(*a) == e0,
                archive_comment(*a) == c0,
                least_safe_boundary(e0, c0, b0, archive_boundary(*a)),
            decreases m - bl,
        {
            match set_boundary_length(a, bl) {
                Ok(()) => {
                    break ;
                },
                Err(_) => {
                    proof {
                        if m < bl + 3 {
                            lemma_long_boundary_safe(e0, c0, m as nat, bl as nat);
                        }
                        assert forall|k: nat| b0 <= k < bl + 1 implies !#[trigger] boundary_safe(
                            e0,
                            c0,
                            k,
                        ) by {
                            if k < bl {
                            }
                        }
                    }
                    bl = bl + 1;
                },
            }
        }
    }
    let out = serialise_archive(a);
    out.unwrap()
}

/// A file entry with the given comment and body.
pub open spec fn file_entry(comment: Option<String>, content: String) -> HrxEntry {
    HrxEntry { comment: comment, data: HrxEntryData::File { body: Some(content) } }
}

/// The entries after a file with `content` is installed at `key`: an entry
/// already there gets the new body in place and keeps its comment and
/// position; otherwise a new entry is appended.
pub open spec fn installed(entries: Seq<(Seq<char>, HrxEntry)>, key: Seq<char>, content: String) -> Seq<
    (Seq<char>, HrxEntry),
> {
    if has_key(entries, key) {
        entries.map_values(
            |kv: (Seq<char>, HrxEntry)|
                if kv.0 == key {
                    (kv.0, file_entry(kv.1.comment, content))
                } else {
                    kv
                },
        )
    } else {
        entries.push((key, file_entry(None, content)))
    }
}

/// Installs a file with `content` at entry path `path`. Fails, changing
/// nothing, when `path` is not a legal entry path.
pub fn install_file(a: &mut HrxArchive, path: &str, content: String) -> (r: Result<(), ArchiveError>)
    requires
        keys_unique(archive_entries(*old(a))),
    ensures
        r is Ok <==> valid_entry_path(path@),
        r is Ok ==> archive_entries(*final(a)) == installed(
            archive_entries(*old(a)),
            path@,
            content,
        ),
        r is Err ==> r == Err::<(), ArchiveError>(ArchiveError::BadPath) && *final(a) == *old(a),
        keys_unique(archive_entries(*final(a))),
        archive_comment(*final(a)) == archive_comment(*old(a)),
        archive_boundary(*final(a)) == archive_boundary(*old(a)),
{
    let ghost e0 = archive_entries(*a);
    match parse_path(path) {
        Err(_) => Err(ArchiveError::BadPath),
        Ok(p) => {
            if contains_entry(a, path) {
                let ghost c = content;
                replace_entry_data(a, path, HrxEntryData::File { body: Some(content) });
                proof {
                    assert(archive_entries(*a) =~= installed(e0, path@, c));
                }
            } else {
                insert_entry(a, p, HrxEntry { comment: None, data: HrxEntryData::File { body: Some(content) } });
                proof {
                    let e1 = archive_entries(*a);
                    assert forall|i: int, j: int|
                        0 <= i < e1.len() && 0 <= j < e1.len() && i != j implies #[trigger] e1[i].0
                        != #[trigger] e1[j].0 by {
                        if i < e0.len() && j < e0.len() {
                        } else if i == e0.len() {
                            assert(e0[j].0 == e1[j].0);
                        } else {
                            assert(e0[i].0 == e1[i].0);
                        }
                    }
                }
            }
            Ok(())
        },
    }
}

/// The number of bytes of an entry's content: its file body in UTF-8, or zero
/// for a directory or a file without body.
pub open spec fn content_bytes(e: HrxEntry) -> usize {
    match entry_body(e) {
        Some(t) => encode_utf8(t).len() as usize,
        None => 0,
    }
}

/// The position of the entry with path `key`.
pub open spec fn key_index(entries: Seq<(Seq<char>, HrxEntry)>, key: Seq<char>) -> int {
    choose|i: int| 0 <= i < entries.len() && #[trigger] entries[i].0 == key
}

/// The entries without the one at path `key`, if there is one.
pub open spec fn without(entries: Seq<(Seq<char>, HrxEntry)>, key: Seq<char>) -> Seq<
    (Seq<char>, HrxEntry),
> {
    if has_key(entries, key) {
        entries.remove(key_index(entries, key))
    } else {
        entries
    }
}

proof fn lemma_without_unique(entries: Seq<(Seq<char>, HrxEntry)>, key: Seq<char>)
    requires
        keys_unique(entries),
    ensures
        keys_unique(without(entries, key)),
{
    if has_key(entries, key) {
        let k = key_index(entries, key);
        let r = entries.remove(k);
        assert forall|i: int, j: int|
            0 <= i < r.len() && 0 <= j < r.len() && i != j implies #[trigger] r[i].0
            != #[trigger] r[j].0 by {
            let oi = if i < k {
                i
            } else {
                i + 1
            };
            let oj = if j < k {
                j
            } else {
                j + 1
            };
            assert(r[i] == entries[oi]);
            assert(r[j] == entries[oj]);
        }
    }
}

/// Deletes the entry at the host path `elem`, written with the archive's
/// separator. Returns the number of bytes of its content; fails as not found,
/// changing nothing, when no entry has that path.
pub fn delete_entry(a: &mut HrxArchive, elem: &str) -> (r: Result<usize, ArchiveError>)
    requires
        keys_unique(archive_entries(*old(a))),
    ensures
        r is Ok <==> has_key(archive_entries(*old(a)), archive_style(elem@)),
        r matches Ok(n) ==> n == content_bytes(
            archive_entries(*old(a))[key_index(archive_entries(*old(a)), archive_style(elem@))].1,
        ),
        r is Err ==> r == Err::<usize, ArchiveError>(ArchiveError::NotFound),
        archive_entries(*final(a)) == without(archive_entries(*old(a)), archive_style(elem@)),
        keys_unique(archive_entries(*final(a))),
        archive_comment(*final(a)) == archive_comment(*old(a)),
        archive_boundary(*final(a)) == archive_boundary(*old(a)),
{
    let ghost e0 = archive_entries(*a);
    let key = to_archive_separators(elem);
    let removed = remove_entry(a, key.as_str());
    proof {
        lemma_without_unique(e0, key@);
    }
    match removed {
        Some(e) => {
            proof {
                let k = key_index(e0, key@);
                let i = choose|i: int|
                    0 <= i < e0.len() && #[trigger] e0[i].0 == key@ && e0[i].1 == e
                        && archive_entries(*a) == e0.remove(i);
                assert(e0[k].0 == key@);
                assert(i == k);
            }
            let n = match &e.data {
                HrxEntryData::File { body } => match body {
                    Some(text) => text.as_str().len(),
                    None => 0,
                },
                HrxEntryData::Directory => 0,
            };
            Ok(n)
        },
        None => Err(ArchiveError::NotFound),
    }
}

/// The paths named by a delete list, written with the archive's separator.
pub open spec fn delete_keys(list: Seq<String>) -> Seq<Seq<char>> {
    Seq::new(list.len(), |i: int| archive_style(list[i]@))
}

/// The entries left after deleting `keys` in order, or none when one of them
/// is missing at its turn.
pub open spec fn after_deleting(entries: Seq<(Seq<char>, HrxEntry)>, keys: Seq<Seq<char>>) -> Option<
    Seq<(Seq<char>, HrxEntry)>,
>
    decreases keys.len(),
{
    if keys.len() == 0 {
        Some(entries)
    } else {
        match after_deleting(entries, keys.drop_last()) {
            Some(rest) => if has_key(rest, keys.last()) {
                Some(without(rest, keys.last()))
            } else {
                None
            },
            None => None,
        }
    }
}

/// The entries of the stored archive `contents` after deleting the entries
/// named in `list`, when it loads and each of them is present at its turn.
pub open spec fn remaining_entries(contents: Seq<u8>, list: Seq<String>) -> Option<
    Seq<(Seq<char>, HrxEntry)>,
> {
    match loaded(contents) {
        Some(a0) => after_deleting(archive_entries(a0), delete_keys(list)),
        None => None,
    }
}

/// The byte count reported for the deletion at position `i` of `keys`: the
/// content size of the entry it removes.
pub open spec fn deleted_size(entries: Seq<(Seq<char>, HrxEntry)>, keys: Seq<Seq<char>>, i: int) -> usize {
    let stage = after_deleting(entries, keys.subrange(0, i))->Some_0;
    content_bytes(stage[key_index(stage, keys[i])].1)
}

/// The calls made through `progress` during one deletion run, which started
/// with `before` calls recorded: the first `k` of them report the first `k`
/// deletions, and all but those listed in `declined` let the run go on.
pub open spec fn reports_match(
    calls: Seq<ReportRecord>,
    entries: Seq<(Seq<char>, HrxEntry)>,
    keys: Seq<Seq<char>>,
    k: int,
) -> bool {
    &&& calls.len() == k
    &&& forall|j: int| 0 <= j < k ==> (#[trigger] calls[j]).amount == reported_amount(
        deleted_size(entries, keys, j) as nat,
    )
}

/// Deletes the entries named in `delete_list` from the stored archive
/// `contents`, in order, reporting each deleted entry's content size to
/// `progress`, and returns the bytes to store back. A missing entry fails as
/// not found, a declined report as aborted; on any failure nothing is returned
/// to store, so the stored archive stays as it was.
pub fn modify_archive<N: ProcessDataProc, W: ProcessDataProc>(
    contents: Vec<u8>,
    delete_list: &Vec<String>,
    progress: &mut ProgressSlots<N, W>,
) -> (r: Result<Vec<u8>, ArchiveError>)
    ensures
        final(progress).has_callback() == old(progress).has_callback(),
        final(progress).calls().len() >= old(progress).calls().len(),
        final(progress).calls().subrange(0, old(progress).calls().len() as int) == old(progress).calls(),
        loaded(contents@) is None ==> r == Err::<Vec<u8>, ArchiveError>(load_error(contents@))
            && final(progress).calls() == old(progress).calls(),
        loaded(contents@) is Some ==> reports_match(
            final(progress).calls().subrange(
                old(progress).calls().len() as int,
                final(progress).calls().len() as int,
            ),
            archive_entries(loaded(contents@)->Some_0),
            delete_keys(delete_list@),
            final(progress).calls().len() - old(progress).calls().len(),
        ),
        final(progress).calls().len() - old(progress).calls().len() <= delete_list@.len(),
        forall|j: int|
            old(progress).calls().len() <= j < final(progress).calls().len() - 1 ==> (
            #[trigger] final(progress).calls()[j]).answer != 0,
        r is Ok ==> final(progress).calls().len() == old(progress).calls().len()
            + delete_list@.len(),
        r is Ok && delete_list@.len() > 0 ==> final(progress).calls().last().answer != 0,
        r == Err::<Vec<u8>, ArchiveError>(ArchiveError::Aborted) ==> final(progress).calls().len()
            > old(progress).calls().len() ==> final(progress).calls().last().answer == 0,
        r == Err::<Vec<u8>, ArchiveError>(ArchiveError::Aborted) && old(progress).has_callback()
            ==> final(progress).calls().len() > old(progress).calls().len(),
        r == Err::<Vec<u8>, ArchiveError>(ArchiveError::NotFound) ==> final(progress).calls().len()
            > old(progress).calls().len() ==> final(progress).calls().last().answer != 0,
        r == Err::<Vec<u8>, ArchiveError>(ArchiveError::NotFound) ==> loaded(contents@) is Some
            && after_deleting(
            archive_entries(loaded(contents@)->Some_0),
            delete_keys(delete_list@).subrange(
                0,
                final(progress).calls().len() - old(progress).calls().len() + 1,
            ),
        ) is None,
        r is Ok ==> remaining_entries(contents@, delete_list@) is Some && exists|n: nat|
            least_safe_boundary(
                remaining_entries(contents@, delete_list@)->Some_0,
                archive_comment(loaded(contents@)->Some_0),
                archive_boundary(loaded(contents@)->Some_0),
                n,
            ) && r->Ok_0@ == serialised(
                remaining_entries(contents@, delete_list@)->Some_0,
                archive_comment(loaded(contents@)->Some_0),
                n,
            ),
        remaining_entries(contents@, delete_list@) is Some ==> r is Ok || r == Err::<
            Vec<u8>,
            ArchiveError,
        >(ArchiveError::Aborted),
        remaining_entries(contents@, delete_list@) is None ==> r is Err,
        loaded(contents@) is Some && delete_list@.len() == 0 ==> r is Ok,
        loaded(contents@) is Some && delete_list@.len() > 0 && !old(progress).has_callback()
            ==> r is Err,
{
    let ghost bytes = contents@;
    let ghost c0 = progress.calls();
    let mut a = match load_archive(contents) {
        Ok(a) => a,
        Err(e) => {
            return Err(e);
        },
    };
    let ghost a0 = a;
    let ghost keys = delete_keys(delete_list@);
    let ghost has_cb = progress.has_callback();
    let mut i: usize = 0;
    proof {
        assert(keys.subrange(0, 0).len() == 0);
        assert(progress.calls().subrange(c0.len() as int, progress.calls().len() as int) =~= Seq::<
            ReportRecord,
        >::empty());
        assert(progress.calls().subrange(0, c0.len() as int) =~= c0);
    }
    while i < delete_list.len()
        invariant
            i <= delete_list@.len(),
            keys == delete_keys(delete_list@),
            keys_unique(archive_entries(a)),
            after_deleting(archive_entries(a0), keys.subrange(0, i as int)) == Some(
                archive_entries(a),
            ),
            archive_comment(a) == archive_comment(a0),
            archive_boundary(a) == archive_boundary(a0),
            i > 0 ==> has_cb,
            has_cb == old(progress).has_callback(),
            progress.has_callback() == has_cb,
            bytes == contents@,
            loaded(bytes) == Some(a0),
            c0 == old(progress).calls(),
            progress.calls().len() == c0.len() + i,
            progress.calls().subrange(0, c0.len() as int) == c0,
            reports_match(
                progress.calls().subrange(c0.len() as int, progress.calls().len() as int),
                archive_entries(a0),
                keys,
                i as int,
            ),
            forall|j: int| c0.len() <= j < progress.calls().len() ==> (
            #[trigger] progress.calls()[j]).answer != 0,
        decreases delete_list@.len() - i,
    {
        let ghost before = archive_entries(a);
        let ghost calls_before = progress.calls();
        proof {
            assert(keys.subrange(0, i + 1).drop_last() =~= keys.subrange(0, i as int));
            assert(keys.subrange(0, i + 1).last() == keys[i as int]);
        }
        let len = delete_entry(&mut a, delete_list[i].as_str());
        match len {
            Ok(n) => {
                let go_on = progress.report(n);
                proof {
                    if has_cb {
                        let cs = progress.calls();
                        assert(cs.drop_last() == calls_before);
                        assert(n == deleted_size(archive_entries(a0), keys, i as int));
                        let new = cs.subrange(c0.len() as int, cs.len() as int);
                        let old_new = calls_before.subrange(c0.len() as int, calls_before.len() as int);
                        assert forall|j: int| 0 <= j < i + 1 implies (#[trigger] new[j]).amount
                            == reported_amount(deleted_size(archive_entries(a0), keys, j) as nat) by {
                            if j < i {
                                assert(new[j] == old_new[j]);
                            } else {
                                assert(new[j] == cs.last());
                            }
                        }
                        assert(cs.subrange(0, c0.len() as int) =~= c0) by {
                            assert(cs.subrange(0, c0.len() as int) =~= calls_before.subrange(
                                0,
                                c0.len() as int,
                            ));
                        }
                        assert forall|j: int| c0.len() <= j < cs.len() - 1 implies (
                        #[trigger] cs[j]).answer != 0 by {
                            assert(cs[j] == calls_before[j]);
                        }
                
                    } else {
                        assert(i == 0);
                        assert(progress.calls() =~= calls_before);
                    }
                }
                if !go_on {
                    return Err(ArchiveError::Aborted);
                }
            },
            Err(e) => {
                proof {
                    assert forall|j: int| i + 1 <= j <= keys.len() implies after_deleting(
                        archive_entries(a0),
                        #[trigger] keys.subrange(0, j),
                    ) is None by {
                        lemma_deleting_stays_missing(archive_entries(a0), keys, i + 1, j);
                    }
                    assert(keys.subrange(0, keys.len() as int) =~= keys);
                }
                return Err(e);
            },
        }
        i = i + 1;
    }
    proof {
        assert(keys.subrange(0, i as int) =~= keys);
    }
    let ghost rest = archive_entries(a);
    let out = save_archive(&mut a);
    proof {
        let n = archive_boundary(a);
        assert(least_safe_boundary(rest, archive_comment(a0), archive_boundary(a0), n));
        assert(out@ == serialised(rest, archive_comment(a0), n));
        assert(remaining_entries(contents@, delete_list@) == Some(rest));
        assert(loaded(contents@)->Some_0 == a0);
        assert(least_safe_boundary(
            remaining_entries(contents@, delete_list@)->Some_0,
            archive_comment(loaded(contents@)->Some_0),
            archive_boundary(loaded(contents@)->Some_0),
            n,
        ));
        assert(out@ == serialised(
            remaining_entries(contents@, delete_list@)->Some_0,
            archive_comment(loaded(contents@)->Some_0),
            n,
        ));
    }
    Ok(out)
}

proof fn lemma_deleting_stays_missing(
    entries: Seq<(Seq<char>, HrxEntry)>,
    keys: Seq<Seq<char>>,
    i: int,
    j: int,
)
    requires
        0 <= i <= j <= keys.len(),
        after_deleting(entries, keys.subrange(0, i)) is None,
    ensures
        after_deleting(entries, keys.subrange(0, j)) is None,
    decreases j - i,
{
    if j > i {
        lemma_deleting_stays_missing(entries, keys, i, j - 1);
        assert(keys.subrange(0, j).drop_last() =~= keys.subrange(0, j - 1));
    }
}

/// Installing a file at a path that no entry has appends it after all
/// existing entries.
pub proof fn lemma_install_appends(entries: Seq<(Seq<char>, HrxEntry)>, key: Seq<char>, content: String)
    requires
        !has_key(entries, key),
    ensures
        installed(entries, key, content) == entries.push((key, file_entry(None, content))),
        installed(entries, key, content).len() == entries.len() + 1,
        installed(entries, key, content).last().0 == key,
{
}

/// Installing a file at a path that an entry has leaves every entry at its
/// position and every path as it was; the entry at that path gets the new body
/// and keeps its comment.
pub proof fn lemma_install_keeps_order(
    entries: Seq<(Seq<char>, HrxEntry)>,
    key: Seq<char>,
    content: String,
)
    requires
        has_key(entries, key),
    ensures
        installed(entries, key, content).len() == entries.len(),
        forall|i: int|
            0 <= i < entries.len() ==> #[trigger] installed(entries, key, content)[i].0
                == entries[i].0,
        forall|i: int|
            0 <= i < entries.len() && entries[i].0 == key ==> #[trigger] installed(
                entries,
                key,
                content,
            )[i].1 == file_entry(entries[i].1.comment, content),
        forall|i: int|
            0 <= i < entries.len() && entries[i].0 != key ==> #[trigger] installed(
                entries,
                key,
                content,
            )[i] == entries[i],
{
}

/// Packing the same file to the same path a second time changes nothing: no
/// entry is duplicated or moved, so the archive serialises to the same text.
pub proof fn lemma_install_twice(
    entries: Seq<(Seq<char>, HrxEntry)>,
    comment: Option<Seq<char>>,
    key: Seq<char>,
    content: String,
    n: nat,
)
    ensures
        installed(installed(entries, key, content), key, content) == installed(
            entries,
            key,
            content,
        ),
        serialised(installed(installed(entries, key, content), key, content), comment, n)
            == serialised(installed(entries, key, content), comment, n),
{
    let once = installed(entries, key, content);
    let twice = installed(once, key, content);
    if has_key(entries, key) {
        let i = choose|i: int| 0 <= i < entries.len() && #[trigger] entries[i].0 == key;
        assert(once[i].0 == key);
    } else {
        assert(once[entries.len() as int].0 == key);
    }
    assert(has_key(once, key));
    assert(twice =~= once);
}

/// Packing a file again to a path it was packed to, with new content, keeps
/// every path and the order of the entries; only that entry's body changes.
pub proof fn lemma_repack_keeps_paths(
    entries: Seq<(Seq<char>, HrxEntry)>,
    key: Seq<char>,
    first: String,
    second: String,
)
    ensures
        installed(installed(entries, key, first), key, second).len() == installed(
            entries,
            key,
            first,
        ).len(),
        forall|i: int|
            0 <= i < installed(entries, key, first).len() ==> #[trigger] installed(
                installed(entries, key, first),
                key,
                second,
            )[i].0 == installed(entries, key, first)[i].0,
{
    let once = installed(entries, key, first);
    if has_key(entries, key) {
        let i = choose|i: int| 0 <= i < entries.len() && #[trigger] entries[i].0 == key;
        assert(once[i].0 == key);
    } else {
        assert(once[entries.len() as int].0 == key);
    }
    assert(has_key(once, key));
}

/// When the current boundary collides with the content, the boundary that
/// saving chooses is strictly longer.
pub proof fn lemma_boundary_grows(
    entries: Seq<(Seq<char>, HrxEntry)>,
    comment: Option<Seq<char>>,
    from: nat,
    n: nat,
)
    requires
        least_safe_boundary(entries, comment, from, n),
        !boundary_safe(entries, comment, from),
    ensures
        n > from,
{
}

/// The boundary that saving chooses is bounded by the content: it exceeds
/// neither the starting length nor the longest text less two, so the search
/// takes at most as many steps as the content is long.
pub proof fn lemma_boundary_bounded(
    entries: Seq<(Seq<char>, HrxEntry)>,
    comment: Option<Seq<char>>,
    from: nat,
    n: nat,
    m: nat,
)
    requires
        least_safe_boundary(entries, comment, from, n),
        texts_within(entries, comment, m),
    ensures
        n <= from || n + 2 <= m,
{
    if n > from && n + 2 > m {
        lemma_long_boundary_safe(entries, comment, m, (n - 1) as nat);
        assert(!boundary_safe(entries, comment, (n - 1) as nat));
    }
}

/// Deleting a path that no entry has fails as not found and leaves the
/// entries as they were.
pub proof fn lemma_delete_missing(entries: Seq<(Seq<char>, HrxEntry)>, key: Seq<char>)
    requires
        !has_key(entries, key),
    ensures
        without(entries, key) == entries,
        after_deleting(entries, seq![key]) is None,
{
    assert(seq![key].drop_last() =~= Seq::<Seq<char>>::empty());
    assert(after_deleting(entries, Seq::<Seq<char>>::empty()) == Some(entries));
    assert(seq![key].last() == key);
}

} // verus!
