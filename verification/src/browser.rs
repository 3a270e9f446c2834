//! The fallback when the embedded window cannot be created: where Edge is
//! looked for, and the command line of its lean app window.
use vstd::prelude::*;

use crate::paths::{join, join_path};
use crate::text::{chars_of, push_str, string_from_chars, strings_view};

verus! {

/// Where Edge lives under a `Program Files` directory.
pub const EDGE_UNDER_PROGRAM_FILES: &'static str = "Microsoft\\Edge\\Application\\msedge.exe";

/// The registry keys (under `HKLM`) whose default value names Edge.
pub const EDGE_APP_PATH_KEY: &'static str = "SOFTWARE\\Microsoft\\Windows\\CurrentVersion\\App Paths\\msedge.exe";

pub const EDGE_APP_PATH_KEY_WOW64: &'static str = "SOFTWARE\\WOW6432Node\\Microsoft\\Windows\\CurrentVersion\\App Paths\\msedge.exe";

/// The first candidates for Edge, in order: under each set `Program Files`
/// directory (`ProgramFiles(x86)` first).
pub fn edge_candidates(program_dirs: &[String]) -> (r: Vec<String>)
    ensures
        r@.len() == program_dirs@.len(),
        forall|k: int| 0 <= k < r@.len() ==> #[trigger] r@[k]@ == join(program_dirs@[k]@, EDGE_UNDER_PROGRAM_FILES@),
{
    let mut out: Vec<String> = Vec::new();
    let mut i: usize = 0;
    while i < program_dirs.len()
        invariant
            i <= program_dirs.len(),
            out@.len() == i,
            forall|k: int| 0 <= k < i ==> #[trigger] out@[k]@ == join(program_dirs@[k]@, EDGE_UNDER_PROGRAM_FILES@),
        decreases program_dirs.len() - i,
    {
        out.push(join_path(program_dirs[i].as_str(), EDGE_UNDER_PROGRAM_FILES));
        i = i + 1;
    }
    out
}

/// The switches of the lean Edge window, after `--app=<url>` and before the
/// profile directory.
pub open spec fn edge_switches() -> Seq<Seq<char>> {
    seq![
        "--no-first-run"@,
        "--no-default-browser-check"@,
        "--disable-extensions"@,
        "--disable-background-networking"@,
        "--disable-component-update"@,
        "--disable-sync"@,
        "--disable-breakpad"@,
        "--disable-background-mode"@,
        "--disable-features=msEdgeSidebarV2,msEdgeShoppingAssistant,msEdgeTranslate"@,
    ]
}

fn owned(s: &str) -> (r: String)
    ensures
        r@ == s@,
{
    string_from_chars(chars_of(s).as_slice())
}

fn prefixed(p: &str, s: &str) -> (r: String)
    ensures
        r@ == p@ + s@,
{
    let mut v = chars_of(p);
    push_str(&mut v, s);
    string_from_chars(v.as_slice())
}

/// The command line of Edge's app window for `url`: an app window, no first
/// run or default-browser prompt, extensions and background work off, and its
/// own profile directory.
pub fn edge_app_args(url: &str, profile_dir: &str) -> (r: Vec<String>)
    ensures
        strings_view(r@) == seq!["--app="@ + url@] + edge_switches() + seq!["--user-data-dir="@ + profile_dir@],
{
    let mut r: Vec<String> = Vec::new();
    r.push(prefixed("--app=", url));
    r.push(owned("--no-first-run"));
    r.push(owned("--no-default-browser-check"));
    r.push(owned("--disable-extensions"));
    r.push(owned("--disable-background-networking"));
    r.push(owned("--disable-component-update"));
    r.push(owned("--disable-sync"));
    r.push(owned("--disable-breakpad"));
    r.push(owned("--disable-background-mode"));
    r.push(owned("--disable-features=msEdgeSidebarV2,msEdgeShoppingAssistant,msEdgeTranslate"));
    r.push(prefixed("--user-data-dir=", profile_dir));
    assert(strings_view(r@) =~= seq!["--app="@ + url@] + edge_switches() + seq![
        "--user-data-dir="@ + profile_dir@,
    ]);
    r
}

/// Where the window icon file is looked for, in order: beside the program,
/// two levels up (the repository root of a development build), and in the
/// working directory; a directory that is unknown is skipped.
pub fn icon_candidates(exe_dir: Option<&str>, exe_grandparent: Option<&str>, cwd: Option<&str>) -> (r:
    Vec<String>)
    ensures
        strings_view(r@) == (match exe_dir {
            Some(d) => seq![join(d@, "app.ico"@)] + match exe_grandparent {
                Some(g) => seq![join(g@, "app.ico"@)],
                None => Seq::empty(),
            },
            None => Seq::empty(),
        }) + match cwd {
            Some(c) => seq![join(c@, "app.ico"@)],
            None => Seq::empty(),
        },
{
    let mut r: Vec<String> = Vec::new();
    match exe_dir {
        Some(d) => {
            r.push(join_path(d, "app.ico"));
            match exe_grandparent {
                Some(g) => r.push(join_path(g, "app.ico")),
                None => {},
            }
        },
        None => {},
    }
    match cwd {
        Some(c) => r.push(join_path(c, "app.ico")),
        None => {},
    }
    let ghost want = (match exe_dir {
        Some(d) => seq![join(d@, "app.ico"@)] + match exe_grandparent {
            Some(g) => seq![join(g@, "app.ico"@)],
            None => Seq::empty(),
        },
        None => Seq::empty(),
    }) + match cwd {
        Some(c) => seq![join(c@, "app.ico"@)],
        None => Seq::empty(),
    };
    assert(strings_view(r@) =~= want);
    r
}

} // verus!
