//! The archive document as the `hrx` crate holds it: an ordered map from entry
//! paths to entries, a root comment and a boundary length. This module states
//! what the library relies on for each operation of that crate it calls.

use vstd::prelude::*;
use hrx::{HrxArchive, HrxEntry, HrxEntryData, HrxError, HrxPath};
use std::num::NonZeroUsize;

verus! {

#[verifier::external_type_specification]
#[verifier::external_body]
pub struct ExHrxArchive(HrxArchive);

#[verifier::external_type_specification]
#[verifier::external_body]
pub struct ExHrxPath(HrxPath);

#[verifier::external_type_specification]
#[verifier::external_body]
pub struct ExHrxError(HrxError);

#[verifier::external_type_specification]
pub struct ExHrxEntry(HrxEntry);

#[verifier::external_type_specification]
pub struct ExHrxEntryData(HrxEntryData);

/// The entries of an archive in iteration order, each with the text of its path.
pub uninterp spec fn archive_entries(a: HrxArchive) -> Seq<(Seq<char>, HrxEntry)>;

/// The root comment of an archive.
pub uninterp spec fn archive_comment(a: HrxArchive) -> Option<Seq<char>>;

/// The boundary length of an archive: the number of `=` in its boundary.
pub uninterp spec fn archive_boundary(a: HrxArchive) -> nat;

/// The text of an entry path.
pub uninterp spec fn path_text(p: HrxPath) -> Seq<char>;

/// The archive that a text parses into, if it is a well-formed archive.
pub uninterp spec fn parsed_archive(s: Seq<char>) -> Option<HrxArchive>;

/// The bytes written when an archive with these entries, root comment and
/// boundary length is serialised.
pub uninterp spec fn serialised(
    entries: Seq<(Seq<char>, HrxEntry)>,
    comment: Option<Seq<char>>,
    boundary: nat,
) -> Seq<u8>;

/// The boundary of length `n`, with the line break that precedes it.
pub open spec fn boundary_text(n: nat) -> Seq<char> {
    seq!['\n', '<'] + Seq::new(n, |i: int| '=') + seq!['>']
}

/// `t` occurs in `s`.
pub open spec fn contains_text(s: Seq<char>, t: Seq<char>) -> bool {
    exists|i: int| 0 <= i && i + t.len() <= s.len() && #[trigger] s.subrange(i, i + t.len()) == t
}

pub open spec fn string_opt_view(o: Option<String>) -> Option<Seq<char>> {
    match o {
        Some(s) => Some(s@),
        None => None,
    }
}

/// An optional text that a boundary of length `n` does not occur in.
pub open spec fn text_safe(o: Option<Seq<char>>, n: nat) -> bool {
    match o {
        Some(t) => !contains_text(t, boundary_text(n)),
        None => true,
    }
}

/// The body of an entry: a file's body, or nothing for a directory.
pub open spec fn entry_body(e: HrxEntry) -> Option<Seq<char>> {
    match e.data {
        HrxEntryData::File { body } => string_opt_view(body),
        HrxEntryData::Directory => None,
    }
}

/// Neither the comment nor the body of an entry holds the boundary of length `n`.
pub open spec fn entry_safe(e: HrxEntry, n: nat) -> bool {
    text_safe(string_opt_view(e.comment), n) && text_safe(entry_body(e), n)
}

/// A boundary of length `n` occurs in no comment and no file body.
pub open spec fn boundary_safe(
    entries: Seq<(Seq<char>, HrxEntry)>,
    comment: Option<Seq<char>>,
    n: nat,
) -> bool {
    &&& text_safe(comment, n)
    &&& forall|i: int| 0 <= i < entries.len() ==> entry_safe(#[trigger] entries[i].1, n)
}

/// No two entries share a path.
pub open spec fn keys_unique(entries: Seq<(Seq<char>, HrxEntry)>) -> bool {
    forall|i: int, j: int|
        0 <= i < entries.len() && 0 <= j < entries.len() && i != j ==> #[trigger] entries[i].0
            != #[trigger] entries[j].0
}

/// Some entry has path `key`.
pub open spec fn has_key(entries: Seq<(Seq<char>, HrxEntry)>, key: Seq<char>) -> bool {
    exists|i: int| 0 <= i < entries.len() && #[trigger] entries[i].0 == key
}

/// A character allowed in a path component.
pub open spec fn is_path_char(c: char) -> bool {
    &&& (c as u32) > 0x1f
    &&& (c as u32) != 0x7f
    &&& c != '/'
    &&& c != ':'
    &&& c != '\\'
}

/// Position `i` starts a path component.
pub open spec fn starts_component(s: Seq<char>, i: int) -> bool {
    0 <= i < s.len() && (i == 0 || s[i - 1] == '/')
}

/// The component starting at `i` is `.` or `..`.
pub open spec fn dot_component_at(s: Seq<char>, i: int) -> bool {
    ||| (s[i] == '.' && (i + 1 == s.len() || s[i + 1] == '/'))
    ||| (s[i] == '.' && i + 1 < s.len() && s[i + 1] == '.' && (i + 2 == s.len() || s[i + 2]
        == '/'))
}

/// A legal entry path: non-empty components of allowed characters, separated
/// by single `/`, none of them `.` or `..`.
pub open spec fn valid_entry_path(s: Seq<char>) -> bool {
    &&& s.len() > 0
    &&& s[0] != '/'
    &&& s[s.len() - 1] != '/'
    &&& forall|i: int| 0 <= i < s.len() ==> #[trigger] s[i] == '/' || is_path_char(s[i])
    &&& forall|i: int| 0 < i < s.len() && #[trigger] s[i] == '/' ==> s[i - 1] != '/'
    &&& forall|i: int| #[trigger] starts_component(s, i) ==> !dot_component_at(s, i)
}

/// Relies on `HrxArchive::new`: an empty archive without root comment, with the
/// given boundary length.
#[verifier::external_body]
pub(crate) fn new_archive(boundary: usize) -> (r: HrxArchive)
    requires
        boundary > 0,
    ensures
        archive_entries(r) == Seq::<(Seq<char>, HrxEntry)>::empty(),
        archive_comment(r) is None,
        archive_boundary(r) == boundary,
{
    HrxArchive::new(NonZeroUsize::new(boundary).unwrap())
}

/// Relies on `HrxArchive::from_str`: the outcome depends on the text alone, and
/// the entries of a parsed archive have distinct paths.
#[verifier::external_body]
pub(crate) fn parse_archive(text: &str) -> (r: Result<HrxArchive, HrxError>)
    ensures
        r is Ok <==> parsed_archive(text@) is Some,
        r matches Ok(a) ==> parsed_archive(text@) == Some(a) && keys_unique(archive_entries(a)),
{
    text.parse::<HrxArchive>()
}

/// Relies on `HrxPath::from_str`: a text is accepted exactly when it is a legal
/// path, and the path keeps the text unchanged.
#[verifier::external_body]
pub(crate) fn parse_path(text: &str) -> (r: Result<HrxPath, HrxError>)
    ensures
        r is Ok <==> valid_entry_path(text@),
        r matches Ok(p) ==> path_text(p) == text@,
{
    text.parse::<HrxPath>()
}

/// Relies on `HrxPath`'s `AsRef<str>`: the text of the path.
#[verifier::external_body]
pub(crate) fn path_str(p: &HrxPath) -> (r: &str)
    ensures
        r@ == path_text(*p),
{
    p.as_ref()
}

/// Relies on the root comment field of `HrxArchive`.
#[verifier::external_body]
pub(crate) fn root_comment(a: &HrxArchive) -> (r: Option<&String>)
    ensures
        r matches Some(s) ==> archive_comment(*a) == Some(s@),
        r is None ==> archive_comment(*a) is None,
{
    a.comment.as_ref()
}

/// Relies on `HrxArchive::boundary_length`: the current boundary length, never zero.
#[verifier::external_body]
pub(crate) fn boundary_length(a: &HrxArchive) -> (r: usize)
    ensures
        r == archive_boundary(*a),
        r > 0,
{
    a.boundary_length().get()
}

/// Relies on `HrxArchive::set_boundary_length`: the new length is taken exactly
/// when no comment or file body holds the boundary of that length; otherwise
/// the archive is left as it was.
#[verifier::external_body]
pub(crate) fn set_boundary_length(a: &mut HrxArchive, n: usize) -> (r: Result<(), HrxError>)
    requires
        n > 0,
    ensures
        r is Ok <==> boundary_safe(archive_entries(*old(a)), archive_comment(*old(a)), n as nat),
        r is Ok ==> archive_entries(*final(a)) == archive_entries(*old(a)) && archive_comment(
            *final(a),
        ) == archive_comment(*old(a)) && archive_boundary(*final(a)) == n,
        r is Err ==> *final(a) == *old(a),
{
    a.set_boundary_length(NonZeroUsize::new(n).unwrap())
}

/// Relies on `HrxArchive::validate_content`: whether the current boundary occurs
/// in no comment and no file body.
#[verifier::external_body]
pub(crate) fn validate_content(a: &HrxArchive) -> (r: bool)
    ensures
        r == boundary_safe(archive_entries(*a), archive_comment(*a), archive_boundary(*a)),
{
    a.validate_content().is_ok()
}

/// Relies on `HrxArchive::serialise` into a byte vector: it fails exactly when
/// the content check fails, and otherwise writes bytes that depend on the
/// entries, the root comment and the boundary length alone.
#[verifier::external_body]
pub(crate) fn serialise_archive(a: &HrxArchive) -> (r: Option<Vec<u8>>)
    ensures
        r is Some <==> boundary_safe(archive_entries(*a), archive_comment(*a), archive_boundary(*a)),
        r matches Some(b) ==> b@ == serialised(
            archive_entries(*a),
            archive_comment(*a),
            archive_boundary(*a),
        ),
{
    let mut out: Vec<u8> = Vec::new();
    match a.serialise(&mut out) {
        Ok(()) => Some(out),
        Err(_) => None,
    }
}

/// Relies on `LinkedHashMap::len`: the number of entries.
#[verifier::external_body]
pub(crate) fn entry_count(a: &HrxArchive) -> (r: usize)
    ensures
        r == archive_entries(*a).len(),
{
    a.entries.len()
}

/// Relies on `LinkedHashMap::iter`: the entry at position `i` in iteration order.
#[verifier::external_body]
pub(crate) fn entry_at(a: &HrxArchive, i: usize) -> (r: Option<(&HrxPath, &HrxEntry)>)
    ensures
        r is Some <==> i < archive_entries(*a).len(),
        r is Some ==> path_text(*r->Some_0.0) == archive_entries(*a)[i as int].0,
        r is Some ==> *r->Some_0.1 == archive_entries(*a)[i as int].1,
{
    a.entries.iter().nth(i)
}

/// Relies on `LinkedHashMap::contains_key`: whether an entry has path `key`.
#[verifier::external_body]
pub(crate) fn contains_entry(a: &HrxArchive, key: &str) -> (r: bool)
    ensures
        r == has_key(archive_entries(*a), key@),
{
    a.entries.contains_key(key)
}

/// Relies on `LinkedHashMap::get_mut`: the data of the entry under `key` is
/// replaced in place; its comment, its position and all other entries stay.
#[verifier::external_body]
pub(crate) fn replace_entry_data(a: &mut HrxArchive, key: &str, data: HrxEntryData)
    ensures
        archive_entries(*final(a)).len() == archive_entries(*old(a)).len(),
        forall|i: int|
            0 <= i < archive_entries(*old(a)).len() ==> #[trigger] archive_entries(*final(a))[i]
                == if archive_entries(*old(a))[i].0 == key@ {
                (
                    archive_entries(*old(a))[i].0,
                    HrxEntry { comment: archive_entries(*old(a))[i].1.comment, data: data },
                )
            } else {
                archive_entries(*old(a))[i]
            },
        archive_comment(*final(a)) == archive_comment(*old(a)),
        archive_boundary(*final(a)) == archive_boundary(*old(a)),
{
    if let Some(e) = a.entries.get_mut(key) {
        e.data = data;
    }
}

/// Relies on `LinkedHashMap::insert` under a path that is not present yet: the
/// entry is appended after all others.
#[verifier::external_body]
pub(crate) fn insert_entry(a: &mut HrxArchive, path: HrxPath, entry: HrxEntry)
    requires
        !has_key(archive_entries(*old(a)), path_text(path)),
    ensures
        archive_entries(*final(a)) == archive_entries(*old(a)).push((path_text(path), entry)),
        archive_comment(*final(a)) == archive_comment(*old(a)),
        archive_boundary(*final(a)) == archive_boundary(*old(a)),
{
    a.entries.insert(path, entry);
}

/// Relies on `LinkedHashMap::remove`: the entry under `key`, if there is one, is
/// taken out and returned; the others keep their order.
#[verifier::external_body]
pub(crate) fn remove_entry(a: &mut HrxArchive, key: &str) -> (r: Option<HrxEntry>)
    requires
        keys_unique(archive_entries(*old(a))),
    ensures
        r matches Some(e) ==> exists|i: int|
            0 <= i < archive_entries(*old(a)).len() && #[trigger] archive_entries(*old(a))[i].0
                == key@ && archive_entries(*old(a))[i].1 == e && archive_entries(*final(a))
                == archive_entries(*old(a)).remove(i),
        r is None ==> !has_key(archive_entries(*old(a)), key@) && archive_entries(*final(a))
            == archive_entries(*old(a)),
        archive_comment(*final(a)) == archive_comment(*old(a)),
        archive_boundary(*final(a)) == archive_boundary(*old(a)),
{
    a.entries.remove(key)
}

} // verus!
