//! Locating dsh, and reading the lines `dsh web` prints.
//!
//! The search order for `node.exe` is: the configured override, `PATH`,
//! the highest `%LOCALAPPDATA%\nodejs\node-v*`, then `%ProgramFiles%\nodejs`.
//! The file system probing belongs to the caller; this module decides on the
//! override, picks the highest version, names the `bin.js` candidates, and
//! parses the ready line that carries the access token.
use vstd::prelude::*;

use crate::paths::{join, join_path};
use crate::winpath::{file_name_of, split_file_name_chars};
use crate::text::{
    chars_eq_ic, chars_eq_str, chars_of, contains, contains_chars, find_from, first_match_from,
    is_whitespace, is_ws, parse_uint, parse_uint_chars, push_str, seq_eq_ic, seqs_view,
    slice_to_vec, split_chars, split_on, starts_with, starts_with_chars, string_from_chars, trim,
    trim_bounds, trim_start, trim_start_index, utf8_size, utf8_size_exceeds,
};

verus! {

/// The located dsh: its `node.exe` and the `bin.js` of `@deepseek-ai/dsh`.
#[derive(Debug, Clone)]
pub struct Dsh {
    pub node: String,
    pub bin_js: String,
}

/// Why dsh could not be located.
#[derive(Debug, Clone, PartialEq)]
pub enum DshError {
    /// No `node.exe` anywhere.
    NodeNotFound,
    /// The configured node path is unusable (with the path and the reason).
    InvalidNodePath(String),
    /// No `bin.js` of `@deepseek-ai/dsh`.
    BinJsNotFound,
}

pub open spec fn dsh_error_text(e: DshError) -> Seq<char> {
    match e {
        DshError::NodeNotFound => "未找到 node.exe。请安装 Node.js，或在设置中手动指定 node 路径。"@,
        DshError::InvalidNodePath(m) => "配置里的 node 路径不可用："@ + m@
            + "。请在设置页更正或清空该项（清空后自动探测）。"@,
        DshError::BinJsNotFound => "未找到 @deepseek-ai/dsh 的 bin.js。请确认已执行 npm install -g @deepseek-ai/dsh。"@,
    }
}

impl DshError {
    /// The message shown to the user.
    pub fn message(&self) -> (r: String)
        ensures
            r@ == dsh_error_text(*self),
    {
        let mut v: Vec<char> = Vec::new();
        match self {
            DshError::NodeNotFound => {
                push_str(&mut v, "未找到 node.exe。请安装 Node.js，或在设置中手动指定 node 路径。");
            },
            DshError::InvalidNodePath(m) => {
                push_str(&mut v, "配置里的 node 路径不可用：");
                push_str(&mut v, m.as_str());
                push_str(&mut v, "。请在设置页更正或清空该项（清空后自动探测）。");
            },
            DshError::BinJsNotFound => {
                push_str(
                    &mut v,
                    "未找到 @deepseek-ai/dsh 的 bin.js。请确认已执行 npm install -g @deepseek-ai/dsh。",
                );
            },
        }
        assert(v@ =~= dsh_error_text(*self));
        string_from_chars(v.as_slice())
    }
}

// ---------------------------------------------------------------------------
// The node override
// ---------------------------------------------------------------------------

/// Whether a path names `node.exe` (in any case).
pub open spec fn names_node_exe(p: Seq<char>) -> bool {
    match file_name_of(p) {
        Some(n) => seq_eq_ic(n, "node.exe"@),
        None => false,
    }
}

pub fn is_node_exe_path(p: &str) -> (r: bool)
    ensures
        r == names_node_exe(p@),
{
    let v = chars_of(p);
    match split_file_name_chars(v.as_slice()) {
        Some((k, e)) => {
            let n = slice_to_vec(v.as_slice(), k, e);
            let want = chars_of("node.exe");
            chars_eq_ic(n.as_slice(), want.as_slice())
        },
        None => false,
    }
}

/// What the configured node path asks for: nothing (blank or unset), a path
/// to check on disk, or an error when it does not name `node.exe`.
pub fn check_node_override(override_path: Option<&str>) -> (r: Result<Option<String>, DshError>)
    ensures
        match override_path {
            None => r == Ok::<Option<String>, DshError>(None),
            Some(p) => {
                let t = trim(p@);
                if t.len() == 0 {
                    r == Ok::<Option<String>, DshError>(None)
                } else if names_node_exe(t) {
                    r matches Ok(Some(x)) && x@ == t
                } else {
                    r matches Err(DshError::InvalidNodePath(m)) && m@ == t + "（文件名不是 node.exe）"@
                }
            },
        },
{
    let p = match override_path {
        Some(p) => p,
        None => return Ok(None),
    };
    let v = chars_of(p);
    let (a, b) = trim_bounds(v.as_slice(), 0, v.len());
    proof {
        assert(v@.subrange(0, v@.len() as int) =~= v@);
    }
    if a == b {
        return Ok(None);
    }
    let t = slice_to_vec(v.as_slice(), a, b);
    let ts = string_from_chars(t.as_slice());
    if is_node_exe_path(ts.as_str()) {
        Ok(Some(ts))
    } else {
        let mut m: Vec<char> = t;
        push_str(&mut m, "（文件名不是 node.exe）");
        Err(DshError::InvalidNodePath(string_from_chars(m.as_slice())))
    }
}

/// The error for a configured node path that names `node.exe` but is no file.
pub fn node_missing_error(path: &str) -> (r: DshError)
    ensures
        r matches DshError::InvalidNodePath(m) && m@ == path@ + "（文件不存在）"@,
{
    let mut m: Vec<char> = chars_of(path);
    push_str(&mut m, "（文件不存在）");
    DshError::InvalidNodePath(string_from_chars(m.as_slice()))
}

/// Whether a node path is configured: set and not blank.
pub open spec fn override_given(o: Option<Seq<char>>) -> bool {
    match o {
        Some(p) => trim(p).len() > 0,
        None => false,
    }
}

/// The outcome of locating `node.exe`, as plain values: the path, or the
/// error (`None` for no `node.exe` anywhere, `Some(m)` for an unusable
/// configured path with the reason `m`).
pub open spec fn node_outcome(o: Option<Seq<char>>, override_is_file: bool, discovered: Option<Seq<char>>) -> Result<Seq<char>, Option<Seq<char>>> {
    if override_given(o) {
        let t = trim(o->0);
        if !names_node_exe(t) {
            Err(Some(t + "（文件名不是 node.exe）"@))
        } else if override_is_file {
            Ok(t)
        } else {
            Err(Some(t + "（文件不存在）"@))
        }
    } else {
        match discovered {
            Some(f) => Ok(f),
            None => Err(None),
        }
    }
}

/// A located node path or its error, as plain values.
pub open spec fn node_result_view(r: Result<String, DshError>) -> Result<Seq<char>, Option<Seq<char>>> {
    match r {
        Ok(p) => Ok(p@),
        Err(DshError::InvalidNodePath(m)) => Err(Some(m@)),
        Err(_) => Err(None),
    }
}

/// Decides which `node.exe` to run. A configured path (set and not blank) is
/// used as given, trimmed, when it names `node.exe` and `override_is_file`
/// says the trimmed path is an existing file; otherwise it is an error, and
/// the node found elsewhere is never used in its place. Without a configured
/// path, the node that the search of `PATH` and the install folders found is
/// used, or `NodeNotFound` when it found none.
pub fn choose_node(override_path: Option<&str>, override_is_file: bool, discovered: Option<String>) -> (r: Result<String, DshError>)
    ensures
        node_result_view(r) == node_outcome(
            match override_path { Some(p) => Some(p@), None => None },
            override_is_file,
            match discovered { Some(f) => Some(f@), None => None },
        ),
{
    match check_node_override(override_path) {
        Err(e) => Err(e),
        Ok(Some(p)) => {
            if override_is_file {
                Ok(p)
            } else {
                Err(node_missing_error(p.as_str()))
            }
        },
        Ok(None) => match discovered {
            Some(f) => Ok(f),
            None => Err(DshError::NodeNotFound),
        },
    }
}

/// A configured node path is never replaced by one found elsewhere: whatever
/// the search found, the outcome is the same, and it is never "not found".
pub proof fn lemma_override_never_falls_back(o: Option<Seq<char>>, override_is_file: bool, found1: Option<Seq<char>>, found2: Option<Seq<char>>)
    requires
        override_given(o),
    ensures
        node_outcome(o, override_is_file, found1) == node_outcome(o, override_is_file, found2),
        node_outcome(o, override_is_file, found1) != Err::<Seq<char>, Option<Seq<char>>>(None),
{
}

/// A blank configured path counts as none: it never yields an invalid-path error.
pub proof fn lemma_blank_override_is_no_override(p: Seq<char>, override_is_file: bool, found: Option<Seq<char>>)
    requires
        trim(p).len() == 0,
    ensures
        node_outcome(Some(p), override_is_file, found) == node_outcome(None, override_is_file, found),
{
}

// ---------------------------------------------------------------------------
// node-v* directories
// ---------------------------------------------------------------------------

/// The version in a directory name such as `node-v22.11.0`: the first three
/// dot-separated fields after `node-v`, each a `u32`.
pub open spec fn node_version_of(name: Seq<char>) -> Option<(u32, u32, u32)> {
    if !starts_with(name, "node-v"@) {
        None
    } else {
        let f = split_on(name.subrange("node-v"@.len() as int, name.len() as int), '.');
        if f.len() < 3 {
            None
        } else {
            match (
                parse_uint(f[0], u32::MAX as nat),
                parse_uint(f[1], u32::MAX as nat),
                parse_uint(f[2], u32::MAX as nat),
            ) {
                (Some(a), Some(b), Some(c)) => Some((a as u32, b as u32, c as u32)),
                _ => None,
            }
        }
    }
}

pub fn parse_node_version(name: &str) -> (r: Option<(u32, u32, u32)>)
    ensures
        r == node_version_of(name@),
{
    let v = chars_of(name);
    let pre = chars_of("node-v");
    if !starts_with_chars(v.as_slice(), pre.as_slice()) {
        return None;
    }
    let rest = slice_to_vec(v.as_slice(), pre.len(), v.len());
    let f = split_chars(rest.as_slice(), '.');
    if f.len() < 3 {
        return None;
    }
    assert(seqs_view(f@)[0] == f@[0]@);
    assert(seqs_view(f@)[1] == f@[1]@);
    assert(seqs_view(f@)[2] == f@[2]@);
    let a = match parse_uint_chars(f[0].as_slice(), u32::MAX as u64) {
        Some(a) => a,
        None => return None,
    };
    let b = match parse_uint_chars(f[1].as_slice(), u32::MAX as u64) {
        Some(b) => b,
        None => return None,
    };
    let c = match parse_uint_chars(f[2].as_slice(), u32::MAX as u64) {
        Some(c) => c,
        None => return None,
    };
    Some((a as u32, b as u32, c as u32))
}

/// `a` is a later version than `b`.
pub open spec fn version_gt(a: (u32, u32, u32), b: (u32, u32, u32)) -> bool {
    a.0 > b.0 || (a.0 == b.0 && (a.1 > b.1 || (a.1 == b.1 && a.2 > b.2)))
}

/// The index of the highest version; the first one met wins a tie.
pub open spec fn best_version_index(vs: Seq<(u32, u32, u32)>) -> Option<int>
    decreases vs.len(),
{
    if vs.len() == 0 {
        None
    } else {
        match best_version_index(vs.drop_last()) {
            None => Some(vs.len() - 1),
            Some(b) => if version_gt(vs.last(), vs[b]) {
                Some(vs.len() - 1)
            } else {
                Some(b)
            },
        }
    }
}

/// The highest of the versions met (`None` for none).
pub fn pick_highest_version(vs: &[(u32, u32, u32)]) -> (r: Option<usize>)
    ensures
        match r {
            Some(i) => best_version_index(vs@) == Some(i as int),
            None => best_version_index(vs@) is None,
        },
        r is None <==> vs@.len() == 0,
        r matches Some(i) ==> i < vs@.len() && forall|j: int| 0 <= j < vs@.len() ==> !(vs@[j].0 > vs@[i as int].0
            || (vs@[j].0 == vs@[i as int].0 && (vs@[j].1 > vs@[i as int].1 || (vs@[j].1 == vs@[i as int].1
            && vs@[j].2 > vs@[i as int].2)))),
{
    let mut best: Option<usize> = None;
    let mut i: usize = 0;
    while i < vs.len()
        invariant
            i <= vs.len(),
            match best {
                Some(b) => b < i && best_version_index(vs@.subrange(0, i as int)) == Some(b as int),
                None => i == 0,
            },
        decreases vs.len() - i,
    {
        let ghost sub = vs@.subrange(0, i + 1);
        assert(sub.drop_last() =~= vs@.subrange(0, i as int));
        match best {
            None => {
                best = Some(i);
            },
            Some(b) => {
                let (x0, x1, x2) = vs[i];
                let (y0, y1, y2) = vs[b];
                assert(sub[b as int] == vs@[b as int]);
                if x0 > y0 || (x0 == y0 && (x1 > y1 || (x1 == y1 && x2 > y2))) {
                    best = Some(i);
                }
            },
        }
        i = i + 1;
    }
    assert(vs@.subrange(0, vs@.len() as int) =~= vs@);
    proof {
        if vs@.len() > 0 {
            assert forall|j: int| 0 <= j < vs@.len() implies !(#[trigger] vs@[j].0 > vs@[best.unwrap() as int].0
                || (vs@[j].0 == vs@[best.unwrap() as int].0 && (vs@[j].1 > vs@[best.unwrap() as int].1 || (vs@[j].1
                == vs@[best.unwrap() as int].1 && vs@[j].2 > vs@[best.unwrap() as int].2)))) by {
                lemma_highest_version_is_maximal(vs@, j);
            }
        }
    }
    best
}

/// The version picked is the highest: no version met is later, comparing
/// major, then minor, then patch numbers.
pub proof fn lemma_highest_version_is_maximal(vs: Seq<(u32, u32, u32)>, j: int)
    requires
        0 <= j < vs.len(),
    ensures
        best_version_index(vs) matches Some(b) && 0 <= b < vs.len() && !(vs[j].0 > vs[b].0 || (vs[j].0
            == vs[b].0 && (vs[j].1 > vs[b].1 || (vs[j].1 == vs[b].1 && vs[j].2 > vs[b].2)))),
    decreases vs.len(),
{
    let last = vs.len() - 1;
    if j < last {
        lemma_highest_version_is_maximal(vs.drop_last(), j);
    } else if vs.len() > 1 {
        lemma_highest_version_is_maximal(vs.drop_last(), 0);
    }
}

/// `bin.js` of `@deepseek-ai/dsh` under a `node_modules` parent directory.
pub open spec fn bin_js_under_spec(dir: Seq<char>) -> Seq<char> {
    join(join(join(join(join(dir, "node_modules"@), "@deepseek-ai"@), "dsh"@), "lib"@), "bin.js"@)
}

pub fn bin_js_under(dir: &str) -> (r: String)
    ensures
        r@ == bin_js_under_spec(dir@),
{
    let a = join_path(dir, "node_modules");
    let b = join_path(a.as_str(), "@deepseek-ai");
    let c = join_path(b.as_str(), "dsh");
    let d = join_path(c.as_str(), "lib");
    join_path(d.as_str(), "bin.js")
}

/// Where `bin.js` may be, in order: beside `node.exe` (given its directory),
/// then in the roaming npm prefix.
pub fn bin_js_candidates(node_dir: Option<&str>, roaming: Option<&str>) -> (r: Vec<String>)
    ensures
        r@.len() == (if node_dir is Some { 1int } else { 0int }) + (if roaming is Some {
            1int
        } else {
            0int
        }),
        node_dir matches Some(d) ==> r@[0]@ == bin_js_under_spec(d@),
        roaming matches Some(g) ==> r@[r@.len() - 1]@ == bin_js_under_spec(join(g@, "npm"@)),
{
    let mut out: Vec<String> = Vec::new();
    match node_dir {
        Some(d) => out.push(bin_js_under(d)),
        None => {},
    }
    match roaming {
        Some(g) => {
            let npm = join_path(g, "npm");
            out.push(bin_js_under(npm.as_str()));
        },
        None => {},
    }
    out
}

// ---------------------------------------------------------------------------
// The ready line
// ---------------------------------------------------------------------------

/// The end of the run of non-white characters that starts at `i`.
pub open spec fn token_end(s: Seq<char>, i: int) -> int
    decreases s.len() - i,
{
    if i < 0 || i >= s.len() {
        s.len() as int
    } else if is_ws(s[i]) {
        i
    } else {
        token_end(s, i + 1)
    }
}

/// The end of the token starting at `i` lies between `i` and the end of the line.
pub proof fn lemma_token_end(s: Seq<char>, i: int)
    requires
        0 <= i <= s.len(),
    ensures
        i <= token_end(s, i) <= s.len(),
    decreases s.len() - i,
{
    if i < s.len() && !is_ws(s[i]) {
        lemma_token_end(s, i + 1);
    }
}

/// Trailing commas removed.
pub open spec fn trim_end_commas(s: Seq<char>) -> Seq<char>
    decreases s.len(),
{
    if s.len() > 0 && s.last() == ',' {
        trim_end_commas(s.drop_last())
    } else {
        s
    }
}

/// The token address on a `dsh web:` ready line: after the prefix and white
/// space, the first white-space-free run starting with `http`, trailing
/// commas removed (so a trailing `(LAN: ...)` note is dropped); none when it
/// is not longer than `http://` in bytes.
pub open spec fn ready_url(line: Seq<char>) -> Option<Seq<char>> {
    match first_match_from(line, 0, "dsh web:"@) {
        None => None,
        Some(idx) => {
            let rest = trim_start(line.subrange(idx + "dsh web:"@.len(), line.len() as int));
            if !starts_with(rest, "http"@) {
                None
            } else {
                let url = trim_end_commas(rest.subrange(0, token_end(rest, 0)));
                if utf8_size(url) <= "http://"@.len() {
                    None
                } else {
                    Some(url)
                }
            }
        },
    }
}

/// The access address (with its token) from a line of `dsh web` output.
pub fn parse_ready_url(line: &str) -> (r: Option<String>)
    ensures
        match r {
            Some(u) => ready_url(line@) == Some(u@),
            None => ready_url(line@) is None,
        },
{
    proof {
        reveal_strlit("http://");
    }
    let s = chars_of(line);
    let pre = chars_of("dsh web:");
    let idx = match find_from(s.as_slice(), 0, pre.as_slice()) {
        Some(i) => i,
        None => return None,
    };
    assert(s@.len() == s.len() && pre@.len() == pre.len());
    let from = idx + pre.len();
    let a = trim_start_index(s.as_slice(), from, s.len());
    let rest = slice_to_vec(s.as_slice(), a, s.len());
    let http = chars_of("http");
    if !starts_with_chars(rest.as_slice(), http.as_slice()) {
        return None;
    }
    let mut e: usize = 0;
    while e < rest.len() && !is_whitespace(rest[e])
        invariant
            e <= rest.len(),
            token_end(rest@, 0) == token_end(rest@, e as int),
        decreases rest.len() - e,
    {
        e = e + 1;
    }
    assert(e == token_end(rest@, 0));
    let mut end = e;
    assert(rest@.subrange(0, e as int).subrange(0, end as int) =~= rest@.subrange(0, e as int));
    while end > 0 && rest[end - 1] == ','
        invariant
            end <= e <= rest.len(),
            trim_end_commas(rest@.subrange(0, e as int)) == trim_end_commas(
                rest@.subrange(0, end as int),
            ),
        decreases end,
    {
        assert(rest@.subrange(0, end as int).drop_last() =~= rest@.subrange(0, end - 1));
        end = end - 1;
    }
    proof {
        if end > 0 {
            assert(rest@.subrange(0, end as int).last() == rest@[end - 1]);
        }
    }
    let url = slice_to_vec(rest.as_slice(), 0, end);
    assert(url@ == trim_end_commas(rest@.subrange(0, e as int)));
    if !utf8_size_exceeds(url.as_slice(), 7) {
        return None;
    }
    Some(string_from_chars(url.as_slice()))
}

/// dsh's notice that it opens the default browser.
pub fn is_browser_open_notice(line: &str) -> (r: bool)
    ensures
        r == contains(line@, "opening the default browser"@),
{
    let v = chars_of(line);
    let p = chars_of("opening the default browser");
    contains_chars(v.as_slice(), p.as_slice())
}

/// A line that looks as if it should carry the ready address.
pub open spec fn looks_like_ready(line: Seq<char>) -> bool {
    contains(line, "dsh web"@) || contains(line, "127.0.0.1"@) || contains(line, "localhost"@)
        || contains(line, "token="@)
}

pub fn looks_like_ready_line(line: &str) -> (r: bool)
    ensures
        r == looks_like_ready(line@),
{
    let v = chars_of(line);
    contains_chars(v.as_slice(), chars_of("dsh web").as_slice()) || contains_chars(
        v.as_slice(),
        chars_of("127.0.0.1").as_slice(),
    ) || contains_chars(v.as_slice(), chars_of("localhost").as_slice()) || contains_chars(
        v.as_slice(),
        chars_of("token=").as_slice(),
    )
}

/// The address points at this machine's loopback interface.
pub open spec fn is_loopback(url: Seq<char>) -> bool {
    starts_with(url, "http://127.0.0.1:"@) || starts_with(url, "https://127.0.0.1:"@)
        || starts_with(url, "http://localhost:"@) || starts_with(url, "https://localhost:"@)
}

pub fn is_loopback_url(url: &str) -> (r: bool)
    ensures
        r == is_loopback(url@),
{
    let v = chars_of(url);
    starts_with_chars(v.as_slice(), chars_of("http://127.0.0.1:").as_slice())
        || starts_with_chars(v.as_slice(), chars_of("https://127.0.0.1:").as_slice())
        || starts_with_chars(v.as_slice(), chars_of("http://localhost:").as_slice())
        || starts_with_chars(v.as_slice(), chars_of("https://localhost:").as_slice())
}

} // verus!
