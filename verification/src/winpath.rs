//! Windows path strings: components, file names, absolute paths and the
//! normal form used to compare two paths.
use vstd::prelude::*;

use crate::paths::{join, join_path};
use crate::text::{chars_eq_ic, chars_of, push_all, seq_eq_ic, slice_to_vec, string_from_chars};

verus! {

pub open spec fn is_sep(c: char) -> bool {
    c == '\\' || c == '/'
}

/// Where the last component of `s` starts: just after its last separator.
pub open spec fn comp_start(s: Seq<char>) -> int
    decreases s.len(),
{
    if s.len() == 0 {
        0
    } else if is_sep(s.last()) {
        s.len() as int
    } else {
        comp_start(s.drop_last())
    }
}

/// The last path component starts within the path, and before its end when the
/// path does not end with a separator.
pub proof fn lemma_comp_start(s: Seq<char>)
    ensures
        0 <= comp_start(s) <= s.len(),
        s.len() > 0 && !is_sep(s.last()) ==> comp_start(s) < s.len(),
    decreases s.len(),
{
    if s.len() > 0 {
        lemma_comp_start(s.drop_last());
    }
}

/// A path split into the part before its file name and the file name: the
/// last component, trailing separators and `.` components skipped; none for
/// an empty path or one ending in `..`.
pub open spec fn split_file_name(s: Seq<char>) -> Option<(Seq<char>, Seq<char>)>
    decreases s.len(),
{
    if s.len() == 0 {
        None
    } else if is_sep(s.last()) {
        split_file_name(s.drop_last())
    } else {
        let k = comp_start(s);
        proof {
            lemma_comp_start(s);
        }
        let comp = s.subrange(k, s.len() as int);
        if comp == "."@ {
            split_file_name(s.subrange(0, k))
        } else if comp == ".."@ {
            None
        } else {
            Some((s.subrange(0, k), comp))
        }
    }
}

/// The file name of a path.
pub open spec fn file_name_of(s: Seq<char>) -> Option<Seq<char>> {
    match split_file_name(s) {
        Some((_, n)) => Some(n),
        None => None,
    }
}

/// The parent part of a path (with its trailing separator).
pub open spec fn parent_of(s: Seq<char>) -> Option<Seq<char>> {
    match split_file_name(s) {
        Some((p, _)) => Some(p),
        None => None,
    }
}

/// Where the file name of `s` lies: `Some((k, e))` for parent `s[..k]` and name `s[k..e]`.
pub fn split_file_name_chars(s: &[char]) -> (r: Option<(usize, usize)>)
    ensures
        match r {
            Some((k, e)) => k <= e <= s.len() && split_file_name(s@) == Some(
                (s@.subrange(0, k as int), s@.subrange(k as int, e as int)),
            ),
            None => split_file_name(s@) is None,
        },
{
    let mut end = s.len();
    assert(s@.subrange(0, end as int) =~= s@);
    loop
        invariant
            end <= s.len(),
            split_file_name(s@) == split_file_name(s@.subrange(0, end as int)),
        decreases end,
    {
        if end == 0 {
            return None;
        }
        let ghost t = s@.subrange(0, end as int);
        if s[end - 1] == '\\' || s[end - 1] == '/' {
            assert(t.drop_last() =~= s@.subrange(0, end - 1));
            end = end - 1;
        } else {
            let mut k = end;
            while k > 0 && s[k - 1] != '\\' && s[k - 1] != '/'
                invariant
                    k <= end <= s.len(),
                    end > 0,
                    t == s@.subrange(0, end as int),
                    comp_start(t) == comp_start(s@.subrange(0, k as int)),
                    k < end ==> !is_sep(s@[end - 1]),
                decreases k,
            {
                assert(s@.subrange(0, k as int).drop_last() =~= s@.subrange(0, k - 1));
                k = k - 1;
            }
            proof {
                if k > 0 {
                    assert(s@.subrange(0, k as int).last() == s@[k - 1]);
                }
                assert(comp_start(s@.subrange(0, k as int)) == k);
                lemma_comp_start(t);
            }
            let ghost comp = t.subrange(k as int, t.len() as int);
            assert(comp =~= s@.subrange(k as int, end as int));
            let is_dot = end - k == 1 && s[k] == '.';
            let is_dots = end - k == 2 && s[k] == '.' && s[k + 1] == '.';
            proof {
                reveal_strlit(".");
                reveal_strlit("..");
                if is_dot {
                    assert(comp =~= "."@);
                }
                if is_dots {
                    assert(comp =~= ".."@);
                }
                if comp == "."@ {
                    assert(comp[0] == '.');
                }
                if comp == ".."@ {
                    assert(comp[0] == '.' && comp[1] == '.');
                }
            }
            if is_dot {
                assert(t.subrange(0, k as int) =~= s@.subrange(0, k as int));
                end = k;
            } else if is_dots {
                return None;
            } else {
                assert(t.subrange(0, k as int) =~= s@.subrange(0, k as int));
                return Some((k, end));
            }
        }
    }
}

pub open spec fn is_letter(c: char) -> bool {
    ('a' <= c <= 'z') || ('A' <= c <= 'Z')
}

/// The path starts with a drive (`C:`).
pub open spec fn has_drive(s: Seq<char>) -> bool {
    s.len() >= 2 && is_letter(s[0]) && s[1] == ':'
}

/// An absolute Windows path: a drive and a separator, or two leading separators
/// (UNC and verbatim paths).
pub open spec fn is_absolute_path(s: Seq<char>) -> bool {
    (has_drive(s) && s.len() >= 3 && is_sep(s[2])) || (s.len() >= 2 && is_sep(s[0]) && is_sep(
        s[1],
    ))
}

/// `base` joined with `p` as `PathBuf::push` does on Windows: a path with a
/// drive replaces `base`; a rooted path keeps only the drive of `base`.
pub open spec fn win_join(base: Seq<char>, p: Seq<char>) -> Seq<char> {
    if is_absolute_path(p) || has_drive(p) {
        p
    } else if p.len() > 0 && is_sep(p[0]) {
        if has_drive(base) {
            base.subrange(0, 2) + p
        } else {
            p
        }
    } else {
        join(base, p)
    }
}

/// Trailing separators removed.
pub open spec fn trim_end_seps(s: Seq<char>) -> Seq<char>
    decreases s.len(),
{
    if s.len() > 0 && is_sep(s.last()) {
        trim_end_seps(s.drop_last())
    } else {
        s
    }
}

/// The normal form of a path: made absolute against the working directory
/// (when known), trailing separators removed unless nothing would be left.
pub open spec fn normalize_path(p: Seq<char>, cwd: Option<Seq<char>>) -> Seq<char> {
    let abs = if is_absolute_path(p) {
        p
    } else {
        match cwd {
            Some(c) => win_join(c, p),
            None => p,
        }
    };
    let s = trim_end_seps(abs);
    if s.len() == 0 {
        abs
    } else {
        s
    }
}

/// Two paths name the same place: equal normal forms, ignoring ASCII case.
pub open spec fn same_path_spec(a: Seq<char>, b: Seq<char>, cwd: Option<Seq<char>>) -> bool {
    seq_eq_ic(normalize_path(a, cwd), normalize_path(b, cwd))
}

fn is_letter_exec(c: char) -> (r: bool)
    ensures
        r == is_letter(c),
{
    ('a' <= c && c <= 'z') || ('A' <= c && c <= 'Z')
}

fn has_drive_exec(s: &[char]) -> (r: bool)
    ensures
        r == has_drive(s@),
{
    s.len() >= 2 && is_letter_exec(s[0]) && s[1] == ':'
}

fn is_absolute_chars(s: &[char]) -> (r: bool)
    ensures
        r == is_absolute_path(s@),
{
    (has_drive_exec(s) && s.len() >= 3 && (s[2] == '\\' || s[2] == '/')) || (s.len() >= 2 && (s[0]
        == '\\' || s[0] == '/') && (s[1] == '\\' || s[1] == '/'))
}

/// Whether a path is absolute.
pub fn is_absolute(p: &str) -> (r: bool)
    ensures
        r == is_absolute_path(p@),
{
    let v = chars_of(p);
    is_absolute_chars(v.as_slice())
}

fn win_join_chars(base: &[char], p: &[char]) -> (r: Vec<char>)
    ensures
        r@ == win_join(base@, p@),
{
    if is_absolute_chars(p) || has_drive_exec(p) {
        slice_to_vec(p, 0, p.len())
    } else if p.len() > 0 && (p[0] == '\\' || p[0] == '/') {
        if has_drive_exec(base) {
            let mut out = slice_to_vec(base, 0, 2);
            push_all(&mut out, p);
            out
        } else {
            slice_to_vec(p, 0, p.len())
        }
    } else {
        let b = string_from_chars(base);
        let q = string_from_chars(p);
        let j = join_path(b.as_str(), q.as_str());
        chars_of(j.as_str())
    }
}

/// The normal form of a path (see [`normalize_path`]).
pub fn normalize(p: &str, cwd: Option<&str>) -> (r: String)
    ensures
        r@ == normalize_path(
            p@,
            match cwd {
                Some(c) => Some(c@),
                None => None,
            },
        ),
{
    let v = chars_of(p);
    let abs: Vec<char> = if is_absolute_chars(v.as_slice()) {
        v
    } else {
        match cwd {
            Some(c) => {
                let cv = chars_of(c);
                win_join_chars(cv.as_slice(), v.as_slice())
            },
            None => v,
        }
    };
    let mut end = abs.len();
    assert(abs@.subrange(0, end as int) =~= abs@);
    while end > 0 && (abs[end - 1] == '\\' || abs[end - 1] == '/')
        invariant
            end <= abs.len(),
            trim_end_seps(abs@) == trim_end_seps(abs@.subrange(0, end as int)),
        decreases end,
    {
        assert(abs@.subrange(0, end as int).drop_last() =~= abs@.subrange(0, end - 1));
        end = end - 1;
    }
    proof {
        if end > 0 {
            assert(abs@.subrange(0, end as int).last() == abs@[end - 1]);
        }
    }
    if end == 0 {
        string_from_chars(abs.as_slice())
    } else {
        let s = slice_to_vec(abs.as_slice(), 0, end);
        string_from_chars(s.as_slice())
    }
}

/// Whether two paths name the same place (case-insensitive, trailing
/// separators ignored).
pub fn same_path(a: &str, b: &str, cwd: Option<&str>) -> (r: bool)
    ensures
        r == same_path_spec(
            a@,
            b@,
            match cwd {
                Some(c) => Some(c@),
                None => None,
            },
        ),
{
    let na = normalize(a, cwd);
    let nb = normalize(b, cwd);
    let va = chars_of(na.as_str());
    let vb = chars_of(nb.as_str());
    chars_eq_ic(va.as_slice(), vb.as_slice())
}

} // verus!
