//! Conversion between the host's `\`-separated paths and the archive's
//! `/`-separated entry paths, and the path under which a packed file is stored.

use vstd::prelude::*;

verus! {

pub open spec fn str_opt_view(o: Option<&str>) -> Option<Seq<char>> {
    match o {
        Some(s) => Some(s@),
        None => None,
    }
}

/// `s` with every `from` replaced by `to`.
pub open spec fn replace_char(s: Seq<char>, from: char, to: char) -> Seq<char> {
    s.map_values(|c: char| if c == from { to } else { c })
}

/// A host path written with the archive's separator.
pub open spec fn archive_style(s: Seq<char>) -> Seq<char> {
    replace_char(s, '\\', '/')
}

/// An archive path written with the host's separator.
pub open spec fn host_style(s: Seq<char>) -> Seq<char> {
    replace_char(s, '/', '\\')
}

/// Position of the last `/` in `s`, or -1 when there is none.
pub open spec fn last_slash(s: Seq<char>) -> int
    decreases s.len(),
{
    if s.len() == 0 {
        -1
    } else if s.last() == '/' {
        s.len() - 1
    } else {
        last_slash(s.drop_last())
    }
}

/// What follows the last `/` of `s`; all of `s` when it holds none.
pub open spec fn last_component(s: Seq<char>) -> Seq<char> {
    s.subrange(last_slash(s) + 1, s.len() as int)
}

/// The path under which a packed file named `elem` on the host is stored:
/// written with the archive's separator, cut to its last component when
/// `collapse` is set, and placed below `sub` when one is given.
pub open spec fn packed_path(elem: Seq<char>, sub: Option<Seq<char>>, collapse: bool) -> Seq<
    char,
> {
    let norm = archive_style(elem);
    let base = if collapse {
        last_component(norm)
    } else {
        norm
    };
    match sub {
        Some(p) => p + seq!['/'] + base,
        None => base,
    }
}

/// Relies on `str::replace` with a one-character replacement: each occurrence
/// of `from` becomes that character, and nothing else changes.
#[verifier::external_body]
fn replace_all(s: &str, from: char, to: &str) -> (r: String)
    requires
        to@.len() == 1,
    ensures
        r@ == replace_char(s@, from, to@[0]),
{
    s.replace(from, to)
}

/// Writes a host path with the archive's `/` separator.
pub fn to_archive_separators(s: &str) -> (r: String)
    ensures
        r@ == archive_style(s@),
{
    let slash = "/";
    proof {
        reveal_strlit("/");
    }
    replace_all(s, '\\', slash)
}

/// Writes an archive path with the host's `\` separator.
pub fn to_host_separators(s: &str) -> (r: String)
    ensures
        r@ == host_style(s@),
{
    let backslash = "\\";
    proof {
        reveal_strlit("\\");
    }
    replace_all(s, '/', backslash)
}

/// The part of `s` after its last `/`, or all of `s`.
pub fn last_path_component(s: &str) -> (r: &str)
    ensures
        r@ == last_component(s@),
{
    let n = s.unicode_len();
    let mut i: usize = n;
    proof {
        assert(s@.subrange(0, n as int) =~= s@);
    }
    while i > 0 && s.get_char(i - 1) != '/'
        invariant
            i <= n,
            n == s@.len(),
            last_slash(s@) == last_slash(s@.subrange(0, i as int)),
        decreases i,
    {
        proof {
            assert(s@.subrange(0, i as int).drop_last() =~= s@.subrange(0, i - 1));
        }
        i = i - 1;
    }
    proof {
        if i == 0 {
            assert(s@.subrange(0, 0).len() == 0);
        } else {
            assert(s@.subrange(0, i as int).last() == '/');
        }
        assert(last_slash(s@) + 1 == i);
    }
    s.substring_char(i, n)
}

/// The path under which a packed file named `elem` on the host is stored.
pub fn packed_entry_path(elem: &str, sub_path: Option<&str>, collapse: bool) -> (r: String)
    ensures
        r@ == packed_path(elem@, str_opt_view(sub_path), collapse),
{
    let norm = to_archive_separators(elem);
    let base: String = if collapse {
        let last = last_path_component(norm.as_str());
        String::from_str(last)
    } else {
        norm
    };
    match sub_path {
        Some(p) => {
            let mut out = String::from_str(p);
            let slash = "/";
            proof {
                reveal_strlit("/");
            }
            out.append(slash);
            out.append(base.as_str());
            proof {
                assert(out@ =~= p@ + seq!['/'] + base@);
            }
            out
        },
        None => base,
    }
}

} // verus!
