use dsh_launcher::browser::{edge_app_args, edge_candidates, icon_candidates};
use dsh_launcher::harness::AuthState;
use dsh_launcher::launcher::{
    close_hides_to_tray, harness_key, theme_step, theme_submitted, HarnessKey, HarnessPresence,
    KeyAction, ThemeAction, ThemeNote, ThemeSampler,
};
use dsh_launcher::uninstall::host::{
    deferred_pass_args, env_var_refs, expand_env_with, is_stale_temp_copy_name,
    launcher_still_running, shortcut_name_matches, sorted_unique_pids, stops_launcher,
    temp_copy_name,
};
use dsh_launcher::uninstall::plan::Context;

#[test]
fn keys_refresh_and_close_the_window() {
    let (ctrl, a) = harness_key(HarnessKey::Control, true, false, false);
    assert!(ctrl && a == KeyAction::Nothing);
    assert_eq!(harness_key(HarnessKey::R, true, false, true), (true, KeyAction::Refresh));
    assert_eq!(harness_key(HarnessKey::R, true, false, false), (false, KeyAction::Nothing), "R alone does nothing");
    assert_eq!(harness_key(HarnessKey::F5, true, true, false).1, KeyAction::Nothing, "repeats do nothing");
    assert_eq!(harness_key(HarnessKey::F5, true, false, false).1, KeyAction::Refresh);
    assert_eq!(harness_key(HarnessKey::Escape, true, false, false).1, KeyAction::Close);
    assert_eq!(harness_key(HarnessKey::Control, false, false, true).0, false, "releasing Ctrl clears it");
    assert!(close_hides_to_tray(true, true));
    assert!(!close_hides_to_tray(false, true));
    assert!(!close_hides_to_tray(true, false));
    let _ = AuthState::Unknown;
}

#[test]
fn theme_sampling_is_rate_limited_and_logs_changes_once() {
    let s = ThemeSampler { pending: false, sampled_at: None, last_color: None, warned_no_color: false };
    let (s, n, a) = theme_step(s, None, 0, HarnessPresence::Visible);
    assert_eq!((n, a), (ThemeNote::Quiet, ThemeAction::Submit));
    let s = theme_submitted(s, true);
    let (s, n, a) = theme_step(s, Some(Some((1, 2, 3))), 100, HarnessPresence::Visible);
    assert_eq!(n, ThemeNote::NewColor((1, 2, 3)));
    assert_eq!(a, ThemeAction::Idle, "not three seconds yet");
    let (s, _, a) = theme_step(s, None, 3000, HarnessPresence::Visible);
    assert_eq!(a, ThemeAction::Submit);
    let s = theme_submitted(s, true);
    let (s, n, _) = theme_step(s, Some(Some((1, 2, 3))), 3100, HarnessPresence::Visible);
    assert_eq!(n, ThemeNote::Quiet, "the same colour is not logged again");
    let (_, _, a) = theme_step(s, None, 9000, HarnessPresence::Hidden);
    assert_eq!(a, ThemeAction::Idle, "a hidden window is not sampled");
    let s = ThemeSampler { pending: false, sampled_at: None, last_color: None, warned_no_color: false };
    let (s, n, _) = theme_step(s, Some(None), 0, HarnessPresence::Visible);
    assert_eq!(n, ThemeNote::NoColorYet);
    let (_, n, _) = theme_step(s, Some(None), 1, HarnessPresence::Visible);
    assert_eq!(n, ThemeNote::Quiet);
}

#[test]
fn unanswered_sample_times_out() {
    let s = ThemeSampler { pending: true, sampled_at: Some(0), last_color: None, warned_no_color: false };
    let (_, _, a) = theme_step(s, None, 4000, HarnessPresence::Visible);
    assert_eq!(a, ThemeAction::Idle);
    let (s2, _, a) = theme_step(s, None, 5001, HarnessPresence::Visible);
    assert_eq!(a, ThemeAction::Submit);
    assert_eq!(s2.sampled_at, Some(5001));
}

#[test]
fn edge_fallback_command_line() {
    let a = edge_app_args("http://127.0.0.1:3080/", "C:\\p");
    assert_eq!(a[0], "--app=http://127.0.0.1:3080/");
    assert_eq!(a.last().unwrap(), "--user-data-dir=C:\\p");
    assert!(a.contains(&"--no-first-run".to_string()));
    assert_eq!(a.len(), 11);
    let c = edge_candidates(&["C:\\Program Files (x86)".to_string()]);
    assert_eq!(c, vec!["C:\\Program Files (x86)\\Microsoft\\Edge\\Application\\msedge.exe".to_string()]);
    let i = icon_candidates(Some("C:\\app"), Some("C:\\repo"), Some("D:\\w"));
    assert_eq!(i, vec!["C:\\app\\app.ico", "C:\\repo\\app.ico", "D:\\w\\app.ico"]);
    assert_eq!(icon_candidates(None, Some("C:\\repo"), None), Vec::<String>::new());
}

#[test]
fn shortcuts_and_temp_copies_are_recognised_by_name() {
    assert!(shortcut_name_matches("DeepSeek Harness Launcher.lnk"));
    assert!(shortcut_name_matches("dsh harness (2).LNK"));
    assert!(!shortcut_name_matches("DeepSeek Harness Launcher.url"));
    assert!(!shortcut_name_matches("Other.lnk"));
    assert!(is_stale_temp_copy_name("DSH-Uninstall-42.EXE"));
    assert!(!is_stale_temp_copy_name("dsh-uninstall.exe"));
    assert_eq!(temp_copy_name(42), "dsh-uninstall-42.exe");
    assert!(is_stale_temp_copy_name(&temp_copy_name(7)));
}

#[test]
fn only_launchers_inside_the_install_dir_are_stopped() {
    let dir = "C:\\app";
    assert!(stops_launcher(5, 1, Some("DSHLauncher.exe"), Some("c:\\APP\\"), dir, None));
    assert!(!stops_launcher(1, 1, Some("DSHLauncher.exe"), Some("C:\\app"), dir, None), "never itself");
    assert!(!stops_launcher(5, 1, Some("DSHLauncher.exe"), Some("D:\\other"), dir, None));
    assert!(!stops_launcher(5, 1, Some("node.exe"), Some("C:\\app"), dir, None));
    assert!(!stops_launcher(5, 1, Some("DSHLauncher.exe"), None, dir, None), "unknown path keeps it");
    assert_eq!(sorted_unique_pids(&[9, 3, 9, 1, 3]), vec![1, 3, 9]);
    assert_eq!(
        launcher_still_running(&[4, 8]),
        "启动器进程在 10 秒内未退出（PID 4, 8），部分文件可能仍被占用"
    );
}

#[test]
fn second_pass_carries_purge_and_silent() {
    let ctx = Context {
        install_dir: "C:\\app".into(),
        marker: "C:\\app\\.dsllauncher-install".into(),
        purge: true,
        silent: true,
        dry_run: false,
        self_exe: "C:\\app\\dsh-uninstall.exe".into(),
        cwd: None,
    };
    assert_eq!(deferred_pass_args(&ctx), vec!["--deferred-pass", "C:\\app", "--purge", "--silent"]);
    let quiet = Context { purge: false, silent: false, ..ctx };
    assert_eq!(deferred_pass_args(&quiet), vec!["--deferred-pass", "C:\\app"]);
}

#[test]
fn expands_environment_variables() {
    let s = r"%USERPROFILE%\Desktop";
    let refs = env_var_refs(s);
    assert_eq!(refs, vec!["USERPROFILE".to_string()]);
    let names = vec!["USERPROFILE".to_string()];
    let values = vec![r"C:\Users\u".to_string()];
    assert_eq!(expand_env_with(s, &names, &values), r"C:\Users\u\Desktop");
    assert_eq!(expand_env_with("100%% 中文", &[], &[]), "100%% 中文");
    assert_eq!(expand_env_with("%NOT_SET_VAR_XYZ%", &[], &[]), "%NOT_SET_VAR_XYZ%");
    assert!(env_var_refs("a%\\x%b").is_empty(), "a name with a backslash is no reference");
}
