//! Maintenance of the dsh data directory (`~/.dsh`).
//!
//! Three rules hold for the archived-session clean-up:
//!   1. an archived id is exactly 44 characters: `session-` and a 36-character uuid;
//!   2. a reparse point (symbolic link, junction) is never deleted through;
//!   3. the projection cache `session_projcache` goes together with the session,
//!      or a running dsh brings the archive list back from it.
//!
//! The file system walk lives with the caller; this module decides what the
//! walk found, locates and rewrites the archive list inside `workspace.json`,
//! and words the outcome.
use vstd::prelude::*;

use crate::json::{encode_string_list, json_document_members, json_list, parse_value};
use crate::paths::{join, join_path, opt_view, platform_dirs, PlatformDirs};
use crate::text::{
    chars_of, contains, contains_string, dec, find_from, first_match_from, is_first_match_from,
    matches_at, parse_uint, parse_uint_trimmed, push_all, push_str, push_u64, seq_eq_ic,
    starts_with, string_from_chars, strings_view, trim, chars_eq_ic, contains_chars,
    starts_with_chars, slice_to_vec,
};

verus! {

// ---------------------------------------------------------------------------
// Locations
// ---------------------------------------------------------------------------

/// `~/.dsh` for a known user profile directory.
pub open spec fn dsh_home_of(home: Option<Seq<char>>) -> Option<Seq<char>> {
    match home {
        Some(h) => Some(join(h, ".dsh"@)),
        None => None,
    }
}

/// `~/.dsh`, or `None` when the user profile directory cannot be found.
///
/// Everything that scans or deletes uses this form: with no profile directory
/// the only safe action is to do nothing, never to fall back to the current
/// working directory.
pub fn dsh_home_opt() -> (r: Option<String>)
    ensures
        exists|d: PlatformDirs| opt_view(r) == dsh_home_of(opt_view(d.home)),
{
    dsh_home_opt_in(&platform_dirs())
}

/// `~/.dsh` under the given user profile folder, or `None` when it is unknown.
pub fn dsh_home_opt_in(dirs: &PlatformDirs) -> (r: Option<String>)
    ensures
        opt_view(r) == dsh_home_of(opt_view(dirs.home)),
{
    match &dirs.home {
        Some(home) => Some(join_path(home.as_str(), ".dsh")),
        None => None,
    }
}

/// `~/.dsh` as shown to the user: empty when the profile directory is unknown.
pub open spec fn dsh_home_shown(home: Option<Seq<char>>) -> Seq<char> {
    match dsh_home_of(home) {
        Some(d) => d,
        None => Seq::empty(),
    }
}

/// `~/.dsh` for display and logging; empty when the profile directory is unknown.
pub fn dsh_home() -> (r: String)
    ensures
        exists|h: Option<Seq<char>>| r@ == dsh_home_shown(h),
{
    let d = dsh_home_opt();
    let ghost h = choose|h: Option<Seq<char>>| opt_view(d) == dsh_home_of(h);
    match d {
        Some(p) => {
            assert(p@ == dsh_home_shown(h));
            p
        },
        None => {
            let e = String::new();
            assert(e@ == dsh_home_shown(h));
            e
        },
    }
}

/// `~/.dsh/storages/workspace.json`, when the profile directory is known.
pub open spec fn workspace_json_of(home: Option<Seq<char>>) -> Option<Seq<char>> {
    match dsh_home_of(home) {
        Some(d) => Some(join(join(d, "storages"@), "workspace.json"@)),
        None => None,
    }
}

/// `~/.dsh/sessions`, when the profile directory is known.
pub open spec fn sessions_root_of(home: Option<Seq<char>>) -> Option<Seq<char>> {
    match dsh_home_of(home) {
        Some(d) => Some(join(d, "sessions"@)),
        None => None,
    }
}

/// `~/.dsh/storages/session_projcache/sessions`, when the profile directory is known.
pub open spec fn proj_cache_of(home: Option<Seq<char>>) -> Option<Seq<char>> {
    match dsh_home_of(home) {
        Some(d) => Some(join(join(join(d, "storages"@), "session_projcache"@), "sessions"@)),
        None => None,
    }
}

/// `~/.dsh/storages/workspace.json` under the given user profile folder.
pub fn workspace_json_path_in(dirs: &PlatformDirs) -> (r: Option<String>)
    ensures
        opt_view(r) == workspace_json_of(opt_view(dirs.home)),
{
    match &dirs.home {
        Some(home) => {
            let d = join_path(home.as_str(), ".dsh");
            let s = join_path(d.as_str(), "storages");
            Some(join_path(s.as_str(), "workspace.json"))
        },
        None => None,
    }
}

/// `~/.dsh/sessions` under the given user profile folder.
pub fn sessions_root_in(dirs: &PlatformDirs) -> (r: Option<String>)
    ensures
        opt_view(r) == sessions_root_of(opt_view(dirs.home)),
{
    match &dirs.home {
        Some(home) => {
            let d = join_path(home.as_str(), ".dsh");
            Some(join_path(d.as_str(), "sessions"))
        },
        None => None,
    }
}

/// `~/.dsh/storages/session_projcache/sessions` under the given user profile folder.
pub fn proj_cache_dir_in(dirs: &PlatformDirs) -> (r: Option<String>)
    ensures
        opt_view(r) == proj_cache_of(opt_view(dirs.home)),
{
    match &dirs.home {
        Some(home) => {
            let d = join_path(home.as_str(), ".dsh");
            let s = join_path(d.as_str(), "storages");
            let c = join_path(s.as_str(), "session_projcache");
            Some(join_path(c.as_str(), "sessions"))
        },
        None => None,
    }
}

/// `~/.dsh/storages/workspace.json` (see [`workspace_json_path_in`]).
pub fn workspace_json_path() -> (r: Option<String>)
    ensures
        exists|d: PlatformDirs| opt_view(r) == workspace_json_of(opt_view(d.home)),
{
    workspace_json_path_in(&platform_dirs())
}

/// `~/.dsh/sessions`: one sub-directory per workspace (see [`sessions_root_in`]).
pub fn sessions_root() -> (r: Option<String>)
    ensures
        exists|d: PlatformDirs| opt_view(r) == sessions_root_of(opt_view(d.home)),
{
    sessions_root_in(&platform_dirs())
}

/// `~/.dsh/storages/session_projcache/sessions` (see [`proj_cache_dir_in`]).
pub fn proj_cache_dir() -> (r: Option<String>)
    ensures
        exists|d: PlatformDirs| opt_view(r) == proj_cache_of(opt_view(d.home)),
{
    proj_cache_dir_in(&platform_dirs())
}

// ---------------------------------------------------------------------------
// Active sessions
// ---------------------------------------------------------------------------

/// A session file counts as freshly written within this many seconds.
pub const ACTIVE_SESSION_WINDOW_SECS: u64 = 300;

/// The same window in nanoseconds.
pub const ACTIVE_SESSION_WINDOW_NANOS: u64 = 300_000_000_000;

/// At most this many recently written session directories are named to the user.
pub const MAX_SESSION_HINTS: usize = 3;

/// Signs that a session may be running, gathered before a clean-up.
///
/// Both signals are indirect: the runner processes are the hard one, recent
/// writes the soft one. They only raise the strength of the confirmation.
#[derive(Debug, Clone)]
pub struct ActiveSessions {
    /// Live session runner processes.
    pub runner_processes: usize,
    /// Session files written within the window.
    pub recently_written: usize,
    /// Names of recently written session directories (at most three).
    pub recent_session_hint: Vec<String>,
}

/// One file met while walking `~/.dsh/sessions`.
#[derive(Debug, Clone)]
pub struct SessionFileSeen {
    /// The file name.
    pub name: String,
    /// The name of its parent directory, where it has one.
    pub parent_name: Option<String>,
    /// Time since its last modification, where the file system told it.
    pub age_nanos: Option<u64>,
}

/// Session content files look like `session.v3.jsonl.zstd` or `session.jsonl`.
pub open spec fn is_session_file_name_spec(name: Seq<char>) -> bool {
    starts_with(name, "session"@) && contains(name, "jsonl"@)
}

pub open spec fn seen_recently(f: SessionFileSeen) -> bool {
    &&& is_session_file_name_spec(f.name@)
    &&& f.age_nanos is Some
    &&& f.age_nanos->0 <= ACTIVE_SESSION_WINDOW_NANOS
}

/// Number of recently written session files among `fs`.
pub open spec fn recent_count(fs: Seq<SessionFileSeen>) -> nat
    decreases fs.len(),
{
    if fs.len() == 0 {
        0
    } else {
        recent_count(fs.drop_last()) + if seen_recently(fs.last()) {
            1nat
        } else {
            0nat
        }
    }
}

/// Distinct parent names of recently written files, in the order met, at most three.
pub open spec fn recent_hints(fs: Seq<SessionFileSeen>) -> Seq<Seq<char>>
    decreases fs.len(),
{
    if fs.len() == 0 {
        Seq::empty()
    } else {
        let h = recent_hints(fs.drop_last());
        let f = fs.last();
        if seen_recently(f) && h.len() < MAX_SESSION_HINTS && f.parent_name is Some
            && !h.contains(f.parent_name->0@) {
            h.push(f.parent_name->0@)
        } else {
            h
        }
    }
}

/// "`n` live session processes were detected".
pub open spec fn runner_phrase(n: nat) -> Seq<char> {
    "检测到 "@ + dec(n) + " 个正在运行的会话进程"@
}

/// "`n` session files were written in the last five minutes".
pub open spec fn written_phrase(n: nat) -> Seq<char> {
    dec(n) + " 个会话文件在最近 "@ + dec((ACTIVE_SESSION_WINDOW_SECS / 60) as nat) + " 分钟内被写过"@
}

/// The one-line description shown to the user.
pub open spec fn summary_text(runners: nat, written: nat) -> Seq<char> {
    if runners > 0 && written > 0 {
        runner_phrase(runners) + "；"@ + written_phrase(written)
    } else if runners > 0 {
        runner_phrase(runners)
    } else if written > 0 {
        written_phrase(written)
    } else {
        "未检测到活跃会话"@
    }
}

pub fn is_session_file_name(name: &str) -> (r: bool)
    ensures
        r == is_session_file_name_spec(name@),
{
    let v = chars_of(name);
    let p1 = chars_of("session");
    let p2 = chars_of("jsonl");
    starts_with_chars(v.as_slice(), p1.as_slice()) && contains_chars(v.as_slice(), p2.as_slice())
}

impl ActiveSessions {
    /// Whether a session is running (by the hard signal).
    pub fn is_running(&self) -> (r: bool)
        ensures
            r == (self.runner_processes > 0),
    {
        self.runner_processes > 0
    }

    /// Whether there is any sign of activity (runner or recent write).
    pub fn any_activity(&self) -> (r: bool)
        ensures
            r == (self.runner_processes > 0 || self.recently_written > 0),
    {
        self.runner_processes > 0 || self.recently_written > 0
    }

    /// One sentence for the user.
    pub fn summary(&self) -> (r: String)
        ensures
            r@ == summary_text(self.runner_processes as nat, self.recently_written as nat),
    {
        let rp = self.runner_processes;
        let rw = self.recently_written;
        let mut v: Vec<char> = Vec::new();
        if rp == 0 && rw == 0 {
            push_str(&mut v, "未检测到活跃会话");
            return string_from_chars(v.as_slice());
        }
        if rp > 0 {
            push_str(&mut v, "检测到 ");
            push_u64(&mut v, rp as u64);
            push_str(&mut v, " 个正在运行的会话进程");
        }
        let ghost first = v@;
        if rw > 0 {
            if rp > 0 {
                push_str(&mut v, "；");
            }
            let ghost before = v@;
            push_u64(&mut v, rw as u64);
            push_str(&mut v, " 个会话文件在最近 ");
            push_u64(&mut v, ACTIVE_SESSION_WINDOW_SECS / 60);
            push_str(&mut v, " 分钟内被写过");
            assert(v@ =~= before + written_phrase(rw as nat));
        }
        proof {
            if rp > 0 {
                assert(first =~= runner_phrase(rp as nat));
            } else {
                assert(first =~= Seq::<char>::empty());
            }
        }
        assert(v@ =~= summary_text(rp as nat, rw as nat));
        string_from_chars(v.as_slice())
    }

    /// Tallies what a walk of `~/.dsh/sessions` met: the files written within
    /// the window, and up to three distinct directories that hold them.
    pub fn from_scan(runner_processes: usize, files: &[SessionFileSeen]) -> (r: ActiveSessions)
        ensures
            r.runner_processes == runner_processes,
            r.recently_written == recent_count(files@),
            strings_view(r.recent_session_hint@) == recent_hints(files@),
    {
        let mut count: usize = 0;
        let mut hint: Vec<String> = Vec::new();
        let mut i: usize = 0;
        while i < files.len()
            invariant
                i <= files.len(),
                count == recent_count(files@.subrange(0, i as int)),
                count <= i,
                strings_view(hint@) == recent_hints(files@.subrange(0, i as int)),
            decreases files.len() - i,
        {
            let ghost pre = files@.subrange(0, i as int);
            let ghost cur = files@.subrange(0, i + 1);
            assert(cur.drop_last() =~= pre);
            assert(cur.last() == files@[i as int]);
            let f = &files[i];
            let recent = match f.age_nanos {
                Some(a) => a <= ACTIVE_SESSION_WINDOW_NANOS && is_session_file_name(
                    f.name.as_str(),
                ),
                None => false,
            };
            assert(recent == seen_recently(files@[i as int]));
            if recent {
                count = count + 1;
                if hint.len() < MAX_SESSION_HINTS {
                    match &f.parent_name {
                        Some(p) => {
                            if !contains_string(&hint, p) {
                                let ghost old_hint = hint@;
                                hint.push(p.clone());
                                assert(strings_view(hint@) =~= strings_view(old_hint).push(
                                    p@,
                                ));
                            }
                        },
                        None => {},
                    }
                }
            }
            i = i + 1;
        }
        assert(files@.subrange(0, files@.len() as int) =~= files@);
        ActiveSessions { runner_processes, recently_written: count, recent_session_hint: hint }
    }
}

/// The live runner count from the output of the process query: its trimmed
/// text read as a number, and zero where the query gave nothing or no number.
pub fn count_session_runner_processes(output: Option<String>) -> (r: usize)
    ensures
        match output {
            Some(t) => match parse_uint(trim(t@), usize::MAX as nat) {
                Some(n) => r == n,
                None => r == 0,
            },
            None => r == 0,
        },
{
    match output {
        Some(t) => match parse_uint_trimmed(t.as_str(), usize::MAX as u64) {
            Some(n) => n as usize,
            None => 0,
        },
        None => 0,
    }
}

// ---------------------------------------------------------------------------
// The archive list inside workspace.json
// ---------------------------------------------------------------------------

/// What `serde_json::from_str::<Vec<String>>` gives for a text: the strings of
/// a JSON array of strings, or nothing where the text is not one.
pub uninterp spec fn json_string_list(text: Seq<char>) -> Option<Seq<Seq<char>>>;

/// Whether `serde_json::from_str::<serde_json::Value>` accepts a text as a JSON document.
pub open spec fn json_is_document(text: Seq<char>) -> bool {
    json_document_members(text) is Some
}

pub open spec fn opt_strings_view(o: Option<Vec<String>>) -> Option<Seq<Seq<char>>> {
    match o {
        Some(v) => Some(strings_view(v@)),
        None => None,
    }
}

/// `serde_json::from_str::<Vec<String>>`, its error dropped.
#[verifier::external_body]
fn parse_json_string_list(text: &str) -> (r: Option<Vec<String>>)
    ensures
        opt_strings_view(r) == json_string_list(text@),
{
    serde_json::from_str::<Vec<String>>(text).ok()
}

/// Whether a text is a JSON document (`serde_json::from_str::<Value>` accepts it).
fn is_json_document(text: &str) -> (r: bool)
    ensures
        r == json_is_document(text@),
{
    match parse_value(text) {
        Some(_) => true,
        None => false,
    }
}

/// The key whose array is the archive list.
pub open spec fn archived_key() -> Seq<char> {
    "\"archivedSessionIds\""@
}

/// `key` occurs at `i`, and that is its only occurrence from `i` on.
pub open spec fn is_unique_key_at(s: Seq<char>, key: Seq<char>, i: int) -> bool {
    &&& is_first_match_from(s, 0, key, i)
    &&& forall|j: int| i + key.len() <= j ==> !matches_at(s, j, key)
}

/// The position of `key` when it occurs once in `s`.
pub open spec fn unique_key(s: Seq<char>, key: Seq<char>) -> Option<int> {
    match first_match_from(s, 0, key) {
        Some(i) => if forall|j: int| i + key.len() <= j ==> !matches_at(s, j, key) {
            Some(i)
        } else {
            None
        },
        None => None,
    }
}

/// The bracket that closes `c`.
pub open spec fn closer(c: char) -> char {
    if c == '[' {
        ']'
    } else {
        '}'
    }
}

/// The bracket scan from position `i`: nesting `depth`, inside a string literal
/// or not, just after a backslash in one or not.
pub open spec fn scan_bracket(
    s: Seq<char>,
    i: int,
    depth: int,
    in_string: bool,
    escaped: bool,
    close: char,
) -> Option<int>
    decreases s.len() - i,
{
    if i < 0 || i >= s.len() {
        None
    } else {
        let c = s[i];
        if in_string {
            if escaped {
                scan_bracket(s, i + 1, depth, true, false, close)
            } else if c == '\\' {
                scan_bracket(s, i + 1, depth, true, true, close)
            } else if c == '"' {
                scan_bracket(s, i + 1, depth, false, false, close)
            } else {
                scan_bracket(s, i + 1, depth, true, false, close)
            }
        } else if c == '"' {
            scan_bracket(s, i + 1, depth, true, false, close)
        } else if c == '[' || c == '{' {
            scan_bracket(s, i + 1, depth + 1, false, false, close)
        } else if c == ']' || c == '}' {
            if depth - 1 == 0 {
                if c == close {
                    Some(i)
                } else {
                    None
                }
            } else {
                scan_bracket(s, i + 1, depth - 1, false, false, close)
            }
        } else {
            scan_bracket(s, i + 1, depth, false, false, close)
        }
    }
}

/// The position of the bracket that closes the one at `open`, skipping string
/// literals (with their escapes) and nested brackets; the closing bracket must
/// be of the same kind.
pub open spec fn match_bracket_spec(s: Seq<char>, open: int) -> Option<int> {
    if 0 <= open < s.len() && (s[open] == '[' || s[open] == '{') {
        scan_bracket(s, open, 0, false, false, closer(s[open]))
    } else {
        None
    }
}

/// The span `[start, end]` of the archive array: the key occurs once, the first
/// `[` after it opens the array, and `end` is its matching `]`.
pub open spec fn archived_span(s: Seq<char>) -> Option<(int, int)> {
    match unique_key(s, archived_key()) {
        Some(k) => match first_match_from(s, k, seq!['[']) {
            Some(start) => match match_bracket_spec(s, start) {
                Some(end) => Some((start, end)),
                None => None,
            },
            None => None,
        },
        None => None,
    }
}

/// The archived ids: the array's strings, or none where the span is missing or
/// the array is not one of strings.
pub open spec fn archived_ids_of(s: Seq<char>) -> Seq<Seq<char>> {
    match archived_span(s) {
        Some((a, b)) => match json_string_list(s.subrange(a, b + 1)) {
            Some(v) => v,
            None => Seq::empty(),
        },
        None => Seq::empty(),
    }
}

/// A closing bracket found by the scan lies at or after `i`, inside the text.
pub proof fn lemma_scan_bounds(
    s: Seq<char>,
    i: int,
    depth: int,
    in_string: bool,
    escaped: bool,
    close: char,
)
    ensures
        match scan_bracket(s, i, depth, in_string, escaped, close) {
            Some(e) => i <= e < s.len() && (s[e] == ']' || s[e] == '}'),
            None => true,
        },
    decreases s.len() - i,
{
    if 0 <= i < s.len() {
        lemma_scan_bounds(s, i + 1, depth, true, false, close);
        lemma_scan_bounds(s, i + 1, depth, true, true, close);
        lemma_scan_bounds(s, i + 1, depth, false, false, close);
        lemma_scan_bounds(s, i + 1, depth + 1, false, false, close);
        lemma_scan_bounds(s, i + 1, depth - 1, false, false, close);
    }
}

fn match_bracket_chars(s: &[char], open_idx: usize) -> (r: Option<usize>)
    ensures
        match r {
            Some(e) => match_bracket_spec(s@, open_idx as int) == Some(e as int),
            None => match_bracket_spec(s@, open_idx as int) is None,
        },
{
    if open_idx >= s.len() {
        return None;
    }
    let open = s[open_idx];
    if open != '[' && open != '{' {
        return None;
    }
    let close = if open == '[' {
        ']'
    } else {
        '}'
    };
    let ghost target = match_bracket_spec(s@, open_idx as int);
    let mut depth: usize = 0;
    let mut in_string = false;
    let mut escaped = false;
    let mut i = open_idx;
    while i < s.len()
        invariant
            open_idx <= i <= s.len(),
            open_idx < s.len(),
            s@[open_idx as int] == '[' || s@[open_idx as int] == '{',
            close == closer(s@[open_idx as int]),
            target == match_bracket_spec(s@, open_idx as int),
            target == scan_bracket(s@, i as int, depth as int, in_string, escaped, close),
            i == open_idx ==> depth == 0 && !in_string && !escaped,
            i > open_idx ==> depth >= 1,
            depth <= i - open_idx,
            !in_string ==> !escaped,
        decreases s.len() - i,
    {
        let c = s[i];
        if in_string {
            if escaped {
                escaped = false;
            } else if c == '\\' {
                escaped = true;
            } else if c == '"' {
                in_string = false;
            }
        } else if c == '"' {
            in_string = true;
        } else if c == '[' || c == '{' {
            depth = depth + 1;
        } else if c == ']' || c == '}' {
            depth = depth - 1;
            if depth == 0 {
                if c == close {
                    return Some(i);
                } else {
                    return None;
                }
            }
        }
        i = i + 1;
    }
    None
}

/// The position of the bracket closing the one at `open_idx` (positions count
/// characters); `None` where `open_idx` holds no `[` or `{`, the bracket is not
/// closed, or it is closed by the other kind.
pub fn match_bracket(raw: &str, open_idx: usize) -> (r: Option<usize>)
    ensures
        match r {
            Some(e) => match_bracket_spec(raw@, open_idx as int) == Some(e as int),
            None => match_bracket_spec(raw@, open_idx as int) is None,
        },
{
    let v = chars_of(raw);
    match_bracket_chars(v.as_slice(), open_idx)
}

fn unique_key_index_chars(s: &[char], key: &[char]) -> (r: Option<usize>)
    ensures
        match r {
            Some(i) => unique_key(s@, key@) == Some(i as int) && is_unique_key_at(s@, key@, i as int),
            None => unique_key(s@, key@) is None,
        },
{
    let first = match find_from(s, 0, key) {
        Some(f) => f,
        None => return None,
    };
    assert(matches_at(s@, first as int, key@));
    assert(first + key@.len() <= s@.len());
    assert(s@.len() == s.len() && key@.len() == key.len());
    let after: usize = first + key.len();
    let again = find_from(s, after, key);
    match again {
        Some(j) => {
            assert(matches_at(s@, j as int, key@));
            None
        },
        None => Some(first),
    }
}

/// The position of `key` in `raw` when it occurs there once (positions count
/// characters); `None` when it is missing or occurs again later.
pub fn unique_key_index(raw: &str, key: &str) -> (r: Option<usize>)
    ensures
        match r {
            Some(i) => unique_key(raw@, key@) == Some(i as int),
            None => unique_key(raw@, key@) is None,
        },
{
    let s = chars_of(raw);
    let k = chars_of(key);
    unique_key_index_chars(s.as_slice(), k.as_slice())
}

fn archived_span_chars(s: &[char]) -> (r: Option<(usize, usize)>)
    ensures
        match r {
            Some((a, b)) => archived_span(s@) == Some((a as int, b as int)) && a <= b < s.len(),
            None => archived_span(s@) is None,
        },
{
    let key = chars_of("\"archivedSessionIds\"");
    let k = match unique_key_index_chars(s, key.as_slice()) {
        Some(k) => k,
        None => return None,
    };
    let open = vec!['['];
    assert(open@ =~= seq!['[']);
    let start = match find_from(s, k, open.as_slice()) {
        Some(st) => st,
        None => return None,
    };
    match match_bracket_chars(s, start) {
        Some(end) => {
            proof {
                lemma_scan_bounds(s@, start as int, 0, false, false, closer(s@[start as int]));
            }
            Some((start, end))
        },
        None => None,
    }
}

/// The span `(start, end)` of the archive array in a `workspace.json` text
/// (positions count characters; `end` is the closing `]`).
pub fn archived_list_span(raw: &str) -> (r: Option<(usize, usize)>)
    ensures
        match r {
            Some((a, b)) => archived_span(raw@) == Some((a as int, b as int)),
            None => archived_span(raw@) is None,
        },
{
    let s = chars_of(raw);
    archived_span_chars(s.as_slice())
}

/// The archived session ids listed in a `workspace.json` text.
///
/// The key must occur once, the array is found by a string-aware bracket
/// match, and its content goes through `serde_json`; where any step fails the
/// list is empty.
pub fn archived_session_ids(raw: &str) -> (r: Vec<String>)
    ensures
        strings_view(r@) == archived_ids_of(raw@),
{
    let s = chars_of(raw);
    match archived_span_chars(s.as_slice()) {
        Some((a, b)) => {
            let part = slice_to_vec(s.as_slice(), a, b + 1);
            let text = string_from_chars(part.as_slice());
            match parse_json_string_list(text.as_str()) {
                Some(v) => v,
                None => {
                    let e: Vec<String> = Vec::new();
                    assert(strings_view(e@) =~= Seq::<Seq<char>>::empty());
                    e
                },
            }
        },
        None => {
            let e: Vec<String> = Vec::new();
            assert(strings_view(e@) =~= Seq::<Seq<char>>::empty());
            e
        },
    }
}

/// `raw` with its characters `[start, end]` replaced by `text`.
pub open spec fn splice(raw: Seq<char>, start: int, end: int, text: Seq<char>) -> Seq<char> {
    raw.subrange(0, start) + text + raw.subrange(end + 1, raw.len() as int)
}

/// Why the archive list could not be rewritten.
#[derive(Debug, Clone)]
pub enum MaintenanceError {
    /// An I/O or encoding failure, with its message.
    Io(String),
}

impl MaintenanceError {
    /// The message shown for the error.
    pub fn message(&self) -> (r: String)
        ensures
            r@ == match *self {
                MaintenanceError::Io(m) => "IO 错误："@ + m@,
            },
    {
        let mut v: Vec<char> = Vec::new();
        match self {
            MaintenanceError::Io(m) => {
                push_str(&mut v, "IO 错误：");
                push_str(&mut v, m.as_str());
            },
        }
        string_from_chars(v.as_slice())
    }
}

/// What splicing `encoded` in place of the archive list of `raw` gives: the
/// new text, or nothing to write (the text is not a JSON document, the list
/// cannot be located safely, or the new text would not be a JSON document).
pub open spec fn splice_outcome(raw: Seq<char>, encoded: Seq<char>) -> Option<Seq<char>> {
    if !json_is_document(raw) {
        None
    } else {
        match archived_span(raw) {
            None => None,
            Some((a, b)) => if json_is_document(splice(raw, a, b, encoded)) {
                Some(splice(raw, a, b, encoded))
            } else {
                None
            },
        }
    }
}

/// The `workspace.json` text `raw` with its archive list replaced by the
/// already encoded list `encoded`; `None` means: leave the file as it is.
pub fn splice_archived_list(raw: &str, encoded: &str) -> (r: Option<String>)
    ensures
        opt_view(r) == splice_outcome(raw@, encoded@),
{
    if !is_json_document(raw) {
        return None;
    }
    let s = chars_of(raw);
    let (a, b) = match archived_span_chars(s.as_slice()) {
        Some(span) => span,
        None => return None,
    };
    let mut out: Vec<char> = slice_to_vec(s.as_slice(), 0, a);
    push_str(&mut out, encoded);
    let tail = slice_to_vec(s.as_slice(), b + 1, s.len());
    push_all(&mut out, tail.as_slice());
    let text = string_from_chars(out.as_slice());
    assert(text@ =~= splice(raw@, a as int, b as int, encoded@));
    if is_json_document(text.as_str()) {
        Some(text)
    } else {
        None
    }
}

/// The `workspace.json` text with its archive list replaced by `remaining`,
/// written as a JSON list of strings.
///
/// `Ok(None)` means: leave the file as it is. That is the answer when the text
/// is not a JSON document, when the list cannot be located safely, and when
/// the rewritten text would not be a JSON document. Encoding a list of strings
/// cannot fail, so the result is always `Ok`.
pub fn rewrite_archived_list(raw: &str, remaining: &[String]) -> (r: Result<
    Option<String>,
    MaintenanceError,
>)
    ensures
        r matches Ok(o) && opt_view(o) == splice_outcome(raw@, json_list(strings_view(remaining@))),
{
    let list = match encode_string_list(remaining) {
        Ok(t) => t,
        Err(msg) => return Err(MaintenanceError::Io(msg)),
    };
    Ok(splice_archived_list(raw, list.as_str()))
}

// ---------------------------------------------------------------------------
// Deciding what becomes of each archived id
// ---------------------------------------------------------------------------

pub open spec fn is_id_char(c: char) -> bool {
    ('0' <= c <= '9') || ('a' <= c <= 'f') || ('A' <= c <= 'F') || c == '-'
}

/// `session-` and 36 characters of hex digits and dashes: 44 in all.
pub open spec fn is_valid_session_id_spec(id: Seq<char>) -> bool {
    &&& id.len() == 44
    &&& starts_with(id, "session-"@)
    &&& forall|k: int| 8 <= k < 44 ==> #[trigger] is_id_char(id[k])
}

pub fn is_valid_session_id(id: &str) -> (r: bool)
    ensures
        r == is_valid_session_id_spec(id@),
{
    let v = chars_of(id);
    let p = chars_of("session-");
    proof {
        reveal_strlit("session-");
    }
    if !starts_with_chars(v.as_slice(), p.as_slice()) {
        return false;
    }
    if v.len() != 44 {
        return false;
    }
    let mut k: usize = 8;
    while k < 44
        invariant
            8 <= k <= 44,
            v.len() == 44,
            v@ == id@,
            starts_with(v@, "session-"@),
            forall|j: int| 8 <= j < k ==> #[trigger] is_id_char(v@[j]),
        decreases 44 - k,
    {
        let c = v[k];
        if !(('0' <= c && c <= '9') || ('a' <= c && c <= 'f') || ('A' <= c && c <= 'F') || c
            == '-') {
            assert(!is_id_char(v@[k as int]));
            return false;
        }
        k = k + 1;
    }
    true
}

/// What becomes of each archived id: an invalid id is pruned from the list, a
/// valid one whose session directory is gone is cleaned; the list keeps every
/// id that is neither.
pub open spec fn settle_spec(ids: Seq<Seq<char>>, gone: Seq<bool>) -> (Seq<Seq<char>>, Seq<Seq<char>>)
    decreases ids.len(),
{
    if ids.len() == 0 {
        (Seq::empty(), Seq::empty())
    } else {
        let (c, p) = settle_spec(ids.drop_last(), gone.subrange(0, ids.len() - 1));
        let id = ids.last();
        if !is_valid_session_id_spec(id) {
            (c, p.push(id))
        } else if gone[ids.len() - 1] {
            (c.push(id), p)
        } else {
            (c, p)
        }
    }
}

/// The ids kept in the archive list: those equal to no cleaned or pruned id.
pub open spec fn remaining_spec(ids: Seq<Seq<char>>, removed: Seq<Seq<char>>) -> Seq<Seq<char>> {
    ids.filter(|x: Seq<char>| !removed.contains(x))
}

/// The settlement of an archive list.
#[derive(Debug, Clone)]
pub struct ArchiveCleanup {
    /// Ids whose session directory is gone.
    pub cleaned: Vec<String>,
    /// Ids that fail validation (path traversal among them).
    pub pruned: Vec<String>,
    /// The list that stays in `workspace.json`.
    pub remaining: Vec<String>,
}

/// Which archived ids may have their session directory removed: exactly the
/// valid session ids. An id that fails validation (a path, `..`, a short or
/// foreign name) is never handed to the file system.
pub fn removable_ids(ids: &[String]) -> (r: Vec<bool>)
    ensures
        r@.len() == ids@.len(),
        forall|i: int| 0 <= i < ids@.len() ==> r@[i] == is_valid_session_id_spec(#[trigger] ids@[i]@),
{
    let mut r: Vec<bool> = Vec::new();
    let mut i: usize = 0;
    while i < ids.len()
        invariant
            i <= ids.len(),
            r@.len() == i,
            forall|k: int| 0 <= k < i ==> r@[k] == is_valid_session_id_spec(#[trigger] ids@[k]@),
        decreases ids.len() - i,
    {
        r.push(is_valid_session_id(ids[i].as_str()));
        i = i + 1;
    }
    r
}

/// Settles the archive list, given for each id whether its session directory
/// is gone (the caller checked and tried to delete only valid ids).
pub fn settle_archived_ids(ids: &[String], gone: &[bool]) -> (r: ArchiveCleanup)
    requires
        ids.len() == gone.len(),
    ensures
        (strings_view(r.cleaned@), strings_view(r.pruned@)) == settle_spec(
            strings_view(ids@),
            gone@,
        ),
        strings_view(r.remaining@) == remaining_spec(
            strings_view(ids@),
            strings_view(r.cleaned@) + strings_view(r.pruned@),
        ),
{
    let mut cleaned: Vec<String> = Vec::new();
    let mut pruned: Vec<String> = Vec::new();
    let mut i: usize = 0;
    while i < ids.len()
        invariant
            i <= ids.len(),
            ids.len() == gone.len(),
            (strings_view(cleaned@), strings_view(pruned@)) == settle_spec(
                strings_view(ids@).subrange(0, i as int),
                gone@.subrange(0, i as int),
            ),
        decreases ids.len() - i,
    {
        let ghost pre = strings_view(ids@).subrange(0, i as int);
        let ghost cur = strings_view(ids@).subrange(0, i + 1);
        assert(cur.drop_last() =~= pre);
        assert(gone@.subrange(0, i + 1).subrange(0, i as int) =~= gone@.subrange(0, i as int));
        let id = &ids[i];
        if !is_valid_session_id(id.as_str()) {
            let ghost old_p = pruned@;
            pruned.push(id.clone());
            assert(strings_view(pruned@) =~= strings_view(old_p).push(id@));
        } else if gone[i] {
            let ghost old_c = cleaned@;
            cleaned.push(id.clone());
            assert(strings_view(cleaned@) =~= strings_view(old_c).push(id@));
        }
        i = i + 1;
    }
    assert(strings_view(ids@).subrange(0, ids@.len() as int) =~= strings_view(ids@));
    assert(gone@.subrange(0, gone@.len() as int) =~= gone@);
    let ghost removed = strings_view(cleaned@) + strings_view(pruned@);
    let mut remaining: Vec<String> = Vec::new();
    let mut j: usize = 0;
    while j < ids.len()
        invariant
            j <= ids.len(),
            removed == strings_view(cleaned@) + strings_view(pruned@),
            strings_view(remaining@) == remaining_spec(
                strings_view(ids@).subrange(0, j as int),
                removed,
            ),
        decreases ids.len() - j,
    {
        let id = &ids[j];
        let gone_id = contains_string(&cleaned, id) || contains_string(&pruned, id);
        proof {
            let sub = strings_view(ids@).subrange(0, j + 1);
            assert(sub.drop_last() =~= strings_view(ids@).subrange(0, j as int));
            assert(sub.last() == id@);
            vstd::seq_lib::lemma_seq_concat_contains_all_elements(
                strings_view(cleaned@),
                strings_view(pruned@),
                id@,
            );
            if removed.contains(id@) {
                let k = choose|k: int| 0 <= k < removed.len() && removed[k] == id@;
                if k < strings_view(cleaned@).len() {
                    assert(strings_view(cleaned@)[k] == id@);
                } else {
                    assert(strings_view(pruned@)[k - strings_view(cleaned@).len()] == id@);
                }
            }
            assert(gone_id == removed.contains(id@));
            reveal(Seq::filter);
        }
        if !gone_id {
            let ghost old_r = remaining@;
            remaining.push(id.clone());
            assert(strings_view(remaining@) =~= strings_view(old_r).push(id@));
        }
        j = j + 1;
    }
    assert(strings_view(ids@).subrange(0, ids@.len() as int) =~= strings_view(ids@));
    ArchiveCleanup { cleaned, pruned, remaining }
}

/// The report of a clean-up of `total` archived sessions, of which `cleaned`
/// were deleted and `pruned` dropped as malformed.
pub open spec fn cleanup_detail_text(cleaned: nat, pruned: nat, total: nat) -> Seq<char> {
    let removed = cleaned + pruned;
    if removed > 0 {
        let head = "已清理 "@ + dec(cleaned) + " / "@ + dec(total) + " 个归档会话"@;
        let with_pruned = if pruned > 0 {
            head + "，并剔除 "@ + dec(pruned) + " 个格式非法的列表项"@
        } else {
            head
        };
        let remain = (total - removed) as nat;
        if remain > 0 {
            with_pruned + "。"@ + " 其余 "@ + dec(remain)
                + " 个删除失败（可能被占用），已保留在归档列表，可稍后重试。"@
        } else {
            with_pruned + "。"@
        }
    } else {
        "未能清理任何归档会话（共 "@ + dec(total) + " 个）。若服务仍在占用，请先完全退出 dsh 后重试。"@
    }
}

pub fn cleanup_detail(cleaned: usize, pruned: usize, total: usize) -> (r: String)
    requires
        cleaned + pruned <= total,
    ensures
        r@ == cleanup_detail_text(cleaned as nat, pruned as nat, total as nat),
{
    let removed = cleaned + pruned;
    let mut v: Vec<char> = Vec::new();
    if removed > 0 {
        push_str(&mut v, "已清理 ");
        push_u64(&mut v, cleaned as u64);
        push_str(&mut v, " / ");
        push_u64(&mut v, total as u64);
        push_str(&mut v, " 个归档会话");
        let ghost head = v@;
        if pruned > 0 {
            push_str(&mut v, "，并剔除 ");
            push_u64(&mut v, pruned as u64);
            push_str(&mut v, " 个格式非法的列表项");
        }
        let ghost with_pruned = v@;
        push_str(&mut v, "。");
        let remain = total - removed;
        if remain > 0 {
            push_str(&mut v, " 其余 ");
            push_u64(&mut v, remain as u64);
            push_str(&mut v, " 个删除失败（可能被占用），已保留在归档列表，可稍后重试。");
        }
        proof {
            assert(head =~= "已清理 "@ + dec(cleaned as nat) + " / "@ + dec(total as nat)
                + " 个归档会话"@);
        }
        assert(v@ =~= cleanup_detail_text(cleaned as nat, pruned as nat, total as nat));
    } else {
        push_str(&mut v, "未能清理任何归档会话（共 ");
        push_u64(&mut v, total as u64);
        push_str(&mut v, " 个）。若服务仍在占用，请先完全退出 dsh 后重试。");
        assert(v@ =~= cleanup_detail_text(cleaned as nat, pruned as nat, total as nat));
    }
    string_from_chars(v.as_slice())
}

// ---------------------------------------------------------------------------
// Orphaned write locks
// ---------------------------------------------------------------------------

/// How deep below `~/.dsh` lock files are looked for.
pub const MAX_LOCK_SCAN_DEPTH: u32 = 3;

/// How long an unreadable lock must have been left untouched to count as orphaned.
pub const LOCK_SETTLE_SECS: u64 = 5;

/// The extension of a file name (`Path::extension`): what follows its last dot,
/// where that dot is not its first character; `..` has none.
pub open spec fn extension_of(name: Seq<char>) -> Option<Seq<char>> {
    if name != ".."@ && exists|i: int|
        0 < i < name.len() && name[i] == '.' && (forall|j: int| i < j < name.len() ==> name[j] != '.')
    {
        let i = choose|i: int|
            0 < i < name.len() && name[i] == '.' && (forall|j: int| i < j < name.len() ==> name[j] != '.');
        Some(name.subrange(i + 1, name.len() as int))
    } else {
        None
    }
}

/// Whether a file is a write lock: its extension is `lock`, in any case.
pub fn is_lock_file_name(name: &str) -> (r: bool)
    ensures
        r == match extension_of(name@) {
            Some(e) => seq_eq_ic(e, "lock"@),
            None => false,
        },
{
    let v = chars_of(name);
    let dots = chars_of("..");
    let lock = chars_of("lock");
    proof {
        reveal_strlit("..");
    }
    let mut i = v.len();
    while i > 0 && v[i - 1] != '.'
        invariant
            i <= v.len(),
            forall|j: int| i <= j < v.len() ==> v@[j] != '.',
        decreases i,
    {
        i = i - 1;
    }
    // i is one past the last dot, or 0 when there is none
    let is_dots = v.len() == 2 && v[0] == '.' && v[1] == '.';
    assert(is_dots == (v@ == ".."@)) by {
        if v@ == ".."@ {
            assert(v@[0] == '.' && v@[1] == '.');
        }
        if is_dots {
            assert(v@ =~= ".."@);
        }
    }
    if is_dots || i <= 1 {
        proof {
            if !is_dots {
                if exists|k: int|
                    0 < k < v@.len() && v@[k] == '.' && (forall|j: int|
                        k < j < v@.len() ==> v@[j] != '.')
                {
                    let k = choose|k: int|
                        0 < k < v@.len() && v@[k] == '.' && (forall|j: int|
                            k < j < v@.len() ==> v@[j] != '.');
                    if i == 1 {
                        assert(v@[0] == '.');
                        assert(k > 0);
                    }
                    assert(v@[k] != '.');
                }
            }
        }
        return false;
    }
    let dot = i - 1;
    proof {
        let k = choose|k: int|
            0 < k < v@.len() && v@[k] == '.' && (forall|j: int| k < j < v@.len() ==> v@[j] != '.');
        assert(0 < dot < v@.len() && v@[dot as int] == '.');
        if k < dot {
            assert(v@[dot as int] != '.');
        }
        if dot < k {
            assert(v@[k] != '.');
        }
        assert(k == dot);
    }
    let ext = slice_to_vec(v.as_slice(), i, v.len());
    chars_eq_ic(ext.as_slice(), lock.as_slice())
}

/// Directories the lock scan does not enter: large, and never holding locks.
pub fn skips_lock_scan_dir(name: &str) -> (r: bool)
    ensures
        r == (name@ == "node_modules"@ || name@ == "sessions"@),
{
    let n = string_from_chars(chars_of(name).as_slice());
    let a = string_from_chars(chars_of("node_modules").as_slice());
    let b = string_from_chars(chars_of("sessions").as_slice());
    n == a || n == b
}

/// The owner recorded in a lock file: its trimmed content read as a process id.
pub fn lock_owner_pid(content: &str) -> (r: Option<u32>)
    ensures
        match r {
            Some(p) => parse_uint(trim(content@), u32::MAX as nat) == Some(p as nat),
            None => parse_uint(trim(content@), u32::MAX as nat) is None,
        },
{
    match parse_uint_trimmed(content, u32::MAX as u64) {
        Some(p) => Some(p as u32),
        None => None,
    }
}

/// Whether a lock is orphaned: a recorded owner that is no longer alive proves
/// it; without a readable owner the file must have settled first.
pub fn is_orphan_lock(owner: Option<u32>, owner_alive: bool, settled: bool) -> (r: bool)
    ensures
        r == match owner {
            Some(_) => !owner_alive,
            None => settled,
        },
{
    match owner {
        Some(_) => !owner_alive,
        None => settled,
    }
}

} // verus!
