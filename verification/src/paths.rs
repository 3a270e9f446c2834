//! Data directories of the launcher, as Windows path strings.
//!
//! User configuration lives under the roaming profile (`%APPDATA%\DSHLauncher`,
//! kept by the uninstaller); regenerable runtime data (logs, WebView2 profile,
//! Edge profile, service bookkeeping) lives under `%LOCALAPPDATA%\DSHLauncher`.
use vstd::prelude::*;

use crate::text::{push_all, push_str, string_from_chars};
use crate::APP_NAME;

verus! {

/// `base` joined with the relative component `leaf` (Windows separator).
pub open spec fn join(base: Seq<char>, leaf: Seq<char>) -> Seq<char> {
    if base.len() == 0 {
        leaf
    } else if base.last() == '\\' || base.last() == '/' {
        base + leaf
    } else {
        base + seq!['\\'] + leaf
    }
}

pub fn join_path(base: &str, leaf: &str) -> (r: String)
    ensures
        r@ == join(base@, leaf@),
{
    let mut v: Vec<char> = Vec::new();
    push_str(&mut v, base);
    let n = v.len();
    if n > 0 && v[n - 1] != '\\' && v[n - 1] != '/' {
        v.push('\\');
    }
    push_str(&mut v, leaf);
    let r = string_from_chars(v.as_slice());
    proof {
        if base@.len() > 0 && base@.last() != '\\' && base@.last() != '/' {
            assert(r@ =~= base@ + seq!['\\'] + leaf@);
        } else {
            assert(r@ =~= base@ + leaf@);
        }
    }
    r
}

/// A platform directory, or the current directory (`.`) when it is unknown.
pub open spec fn dir_or_current_spec(dir: Option<Seq<char>>) -> Seq<char> {
    match dir {
        Some(d) => d,
        None => seq!['.'],
    }
}

pub fn dir_or_current(dir: Option<String>) -> (r: String)
    ensures
        r@ == dir_or_current_spec(opt_view(dir)),
{
    match dir {
        Some(d) => d,
        None => {
            let v = vec!['.'];
            string_from_chars(v.as_slice())
        },
    }
}

/// `dirs::config_dir` (the roaming application data folder), as a string.
#[verifier::external_body]
fn platform_config_dir() -> Option<String> {
    dirs::config_dir().map(|p| p.to_string_lossy().to_string())
}

/// `dirs::data_local_dir` (the local application data folder), as a string.
#[verifier::external_body]
fn platform_data_local_dir() -> Option<String> {
    dirs::data_local_dir().map(|p| p.to_string_lossy().to_string())
}

/// `dirs::home_dir` (the user profile folder), as a string.
#[verifier::external_body]
pub(crate) fn platform_home_dir() -> Option<String> {
    dirs::home_dir().map(|p| p.to_string_lossy().to_string())
}

/// The view of an optional string.
pub open spec fn opt_view(o: Option<String>) -> Option<Seq<char>> {
    match o {
        Some(s) => Some(s@),
        None => None,
    }
}

pub open spec fn app_dir_of(platform_dir: Option<Seq<char>>) -> Seq<char> {
    join(dir_or_current_spec(platform_dir), APP_NAME@)
}

/// The user's platform folders, as `dirs` reports them (`None` where unknown).
pub struct PlatformDirs {
    /// The roaming application data folder (`dirs::config_dir`, `%APPDATA%`).
    pub config: Option<String>,
    /// The local application data folder (`dirs::data_local_dir`, `%LOCALAPPDATA%`).
    pub data_local: Option<String>,
    /// The user profile folder (`dirs::home_dir`).
    pub home: Option<String>,
}

/// The platform folders of this machine and user. What they are depends on
/// the environment, so nothing is stated of them; the `*_in` functions say
/// exactly what is derived from each.
pub fn platform_dirs() -> (r: PlatformDirs) {
    PlatformDirs { config: platform_config_dir(), data_local: platform_data_local_dir(), home: platform_home_dir() }
}

/// `%APPDATA%\DSHLauncher` for the given folders.
pub open spec fn app_data_dir_spec(d: PlatformDirs) -> Seq<char> {
    app_dir_of(opt_view(d.config))
}

/// `%LOCALAPPDATA%\DSHLauncher` for the given folders.
pub open spec fn local_data_dir_spec(d: PlatformDirs) -> Seq<char> {
    app_dir_of(opt_view(d.data_local))
}

fn app_dir_in(platform_dir: &Option<String>) -> (r: String)
    ensures
        r@ == app_dir_of(opt_view(*platform_dir)),
{
    let d: Option<String> = match platform_dir {
        Some(p) => Some(string_from_chars(crate::text::chars_of(p.as_str()).as_slice())),
        None => None,
    };
    let base = dir_or_current(d);
    join_path(base.as_str(), APP_NAME)
}

/// The user configuration folder under the roaming application data folder.
pub fn app_data_dir_in(dirs: &PlatformDirs) -> (r: String)
    ensures
        r@ == app_data_dir_spec(*dirs),
{
    app_dir_in(&dirs.config)
}

/// The runtime data folder under the local application data folder.
pub fn local_data_dir_in(dirs: &PlatformDirs) -> (r: String)
    ensures
        r@ == local_data_dir_spec(*dirs),
{
    app_dir_in(&dirs.data_local)
}

/// `logs` under the runtime data folder.
pub fn log_dir_in(dirs: &PlatformDirs) -> (r: String)
    ensures
        r@ == join(local_data_dir_spec(*dirs), "logs"@),
{
    join_path(local_data_dir_in(dirs).as_str(), "logs")
}

/// `webview2-profile` under the runtime data folder.
pub fn webview_data_dir_in(dirs: &PlatformDirs) -> (r: String)
    ensures
        r@ == join(local_data_dir_spec(*dirs), "webview2-profile"@),
{
    join_path(local_data_dir_in(dirs).as_str(), "webview2-profile")
}

/// `edge-profile` under the runtime data folder.
pub fn edge_profile_dir_in(dirs: &PlatformDirs) -> (r: String)
    ensures
        r@ == join(local_data_dir_spec(*dirs), "edge-profile"@),
{
    join_path(local_data_dir_in(dirs).as_str(), "edge-profile")
}

/// `%APPDATA%\DSHLauncher`: user configuration (see [`app_data_dir_in`]).
pub fn app_data_dir() -> (r: String)
    ensures
        exists|d: PlatformDirs| r@ == app_data_dir_spec(d),
{
    app_data_dir_in(&platform_dirs())
}

/// `%LOCALAPPDATA%\DSHLauncher`: regenerable runtime data (see [`local_data_dir_in`]).
pub fn local_data_dir() -> (r: String)
    ensures
        exists|d: PlatformDirs| r@ == local_data_dir_spec(d),
{
    local_data_dir_in(&platform_dirs())
}

/// `%LOCALAPPDATA%\DSHLauncher\logs` (see [`log_dir_in`]).
pub fn log_dir() -> (r: String)
    ensures
        exists|d: PlatformDirs| r@ == join(local_data_dir_spec(d), "logs"@),
{
    log_dir_in(&platform_dirs())
}

/// `%LOCALAPPDATA%\DSHLauncher\webview2-profile`: the WebView2 user data folder.
pub fn webview_data_dir() -> (r: String)
    ensures
        exists|d: PlatformDirs| r@ == join(local_data_dir_spec(d), "webview2-profile"@),
{
    webview_data_dir_in(&platform_dirs())
}

/// `%LOCALAPPDATA%\DSHLauncher\edge-profile`: the Edge fallback profile.
pub fn edge_profile_dir() -> (r: String)
    ensures
        exists|d: PlatformDirs| r@ == join(local_data_dir_spec(d), "edge-profile"@),
{
    edge_profile_dir_in(&platform_dirs())
}

} // verus!
