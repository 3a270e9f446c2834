use dsh_launcher::cli::{build_info_text, fix_markers, help_text, parse_from, version_text, Args, PKG_VERSION, RELEASE_CHANNEL};
use dsh_launcher::APP_NAME;

fn args_of(list: &[&str]) -> Args {
    parse_from(list.iter().map(|s| s.to_string()).collect())
}

#[test]
fn parses_version_and_help_switches() {
    assert!(args_of(&["--version"]).version);
    assert!(args_of(&["-V"]).version);
    assert!(args_of(&["--help"]).help);
    assert!(args_of(&["-h"]).help);
    let a = args_of(&["--version"]);
    assert!(!a.settings && !a.guide && !a.selftest && !a.ipc_probe);
}

#[test]
fn ipc_probe_implies_settings_window() {
    assert!(args_of(&["--ipc-probe"]).settings);
}

#[test]
fn parses_probe_identity_both_spellings() {
    assert_eq!(args_of(&["--probe-identity", "4321"]).probe_identity, Some(4321));
    assert_eq!(args_of(&["--probe-identity=4321"]).probe_identity, Some(4321));
    let a = args_of(&["--probe-identity", "abc", "--quit"]);
    assert_eq!(a.probe_identity, None);
    assert!(a.quit, "an invalid PID must not swallow the next argument");
}

#[test]
fn unknown_arguments_are_ignored() {
    let a = args_of(&["--nope", "junk", "-x"]);
    assert!(!a.selftest && !a.version && !a.help && !a.settings && !a.quit);
}

#[test]
fn version_and_help_text_are_version_and_channel_aware() {
    for debug in [false, true] {
        let v = version_text(debug);
        assert!(v.contains(PKG_VERSION), "{v}");
        assert!(v.contains(RELEASE_CHANNEL), "{v}");
        assert!(v.starts_with(APP_NAME), "{v}");
    }
    let h = help_text();
    for needle in [
        "--version",
        "--help",
        "--quit",
        "--build-info",
        "--selftest",
        "--probe-identity",
        "--ipc-probe",
        "--settings",
        "--guide",
        "退出码",
    ] {
        assert!(h.contains(needle), "help text lacks {needle}");
    }
}

#[test]
fn build_info_text_reports_version_profile_and_unique_markers() {
    let t = build_info_text(false);
    assert!(t.contains(&format!("version={}", PKG_VERSION)));
    assert!(t.contains("fixes="));
    let markers = fix_markers();
    assert!(!markers.is_empty());
    let mut sorted: Vec<&str> = markers.clone();
    sorted.sort_unstable();
    let before = sorted.len();
    sorted.dedup();
    assert_eq!(before, sorted.len(), "fix markers must not repeat");
    assert!(markers.iter().all(|m| !m.trim().is_empty()));
}

#[test]
fn build_info_names_the_profile_exactly() {
    let release = build_info_text(false);
    assert!(release.starts_with("version=5.0.0\nprofile=release\nfixes="), "{release}");
    let debug = build_info_text(true);
    assert!(debug.contains("\nprofile=debug\n"), "{debug}");
    assert!(release.ends_with('\n'));
}

#[test]
fn version_text_is_exact() {
    assert_eq!(version_text(false), "DSHLauncher 5.0.0 LTS (release)\n");
}
