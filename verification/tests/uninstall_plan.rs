use dsh_launcher::uninstall::args::Args;
use dsh_launcher::uninstall::guards::{
    foreign_entries, is_protected_root, parse_exe_spec, residue_dir_allowed, residue_target_of,
    UNINSTALL_KEY,
};
use dsh_launcher::uninstall::plan::{legacy_payloads, marker_is_ours, payloads, Context, MARKER_NAME, SELF_NAME};
use dsh_launcher::winpath::{normalize, same_path};

fn parse(list: &[&str]) -> Args {
    Args::parse(list.iter().map(|s| s.to_string()).collect())
}

#[test]
fn defaults_keep_user_config_and_are_not_silent() {
    let a = parse(&[]);
    assert!(!a.purge);
    assert!(!a.silent && !a.dry_run && !a.help && !a.deferred_pass);
    assert!(!a.clean_residue);
    assert_eq!(a.deferred_dir, None);
}

#[test]
fn clean_residue_accepts_unix_and_windows_style_switches() {
    for v in ["--clean-residue", "--cleanresidue", "-CleanResidue", "/cleanresidue", "--residue"] {
        assert!(parse(&[v]).clean_residue, "{v} turns on residue cleaning");
    }
    let a = parse(&["--clean-residue"]);
    assert!(!a.purge && !a.dry_run && !a.silent);
    assert!(parse(&["--clean-residue", "--dry-run"]).dry_run);
}

#[test]
fn accepts_legacy_and_windows_style_switches() {
    for v in ["--purge", "-purge", "-Purge"] {
        assert!(parse(&[v]).purge, "{v}");
    }
    for v in ["--silent", "-silent", "-Silent"] {
        assert!(parse(&[v]).silent, "{v}");
    }
    for v in ["--dry-run", "--dryrun", "-DryRun"] {
        assert!(parse(&[v]).dry_run, "{v}");
    }
    assert!(parse(&["/purge"]).purge);
    assert!(parse(&["/quiet"]).silent);
    assert!(parse(&["/q"]).silent);
    assert!(parse(&["/dryrun"]).dry_run);
    assert!(parse(&["/whatif"]).dry_run);
    assert!(parse(&["/?"]).help);
}

#[test]
fn combinations_are_independent() {
    let a = parse(&["--purge", "--silent", "--dry-run"]);
    assert!(a.purge && a.silent && a.dry_run);
}

#[test]
fn deferred_pass_takes_a_directory_and_reports_usage_when_missing() {
    let a = parse(&["--deferred-pass", r"C:\x\DSHLauncher"]);
    assert!(a.deferred_pass);
    assert_eq!(a.deferred_dir.as_deref(), Some(r"C:\x\DSHLauncher"));
    assert!(parse(&["--deferred-pass"]).help);
}

#[test]
fn unknown_switches_are_ignored_like_the_old_script() {
    let a = parse(&["--nope", "junk", "/x"]);
    assert!(!a.purge && !a.silent && !a.dry_run && !a.help);
}

#[test]
fn refuses_protected_roots() {
    let env = vec![
        r"C:\Windows".to_string(),
        r"C:\Users\u\AppData\Local".to_string(),
        r"C:\Users\u".to_string(),
    ];
    assert!(is_protected_root(r"D:", &env, None));
    assert!(is_protected_root(r"D:\", &env, None));
    assert!(is_protected_root(r"C:\", &env, None));
    for d in &env {
        assert!(is_protected_root(d, &env, None), "{d}");
    }
    assert!(is_protected_root(r"c:\users\U\", &env, None));
    assert!(!is_protected_root(r"C:\Users\someone\AppData\Local\Programs\DSHLauncher", &env, None));
}

#[test]
fn same_path_is_case_insensitive_and_separator_insensitive() {
    assert!(same_path(r"C:\A\B", r"c:\a\b\", None));
    assert!(!same_path(r"C:\A\B", r"C:\A\BC", None));
}

#[test]
fn foreign_entries_ignore_our_files_and_the_marker() {
    let names: Vec<String> = ["DSHLauncher.exe", "app.ico", "DSHLauncher.exe.tmp", MARKER_NAME, "user-data"]
        .iter()
        .map(|s| s.to_string())
        .collect();
    let p = payloads();
    let l = legacy_payloads();
    let foreign = foreign_entries(&names, &p, &l, MARKER_NAME);
    assert_eq!(foreign, vec!["user-data".to_string()]);
}

#[test]
fn parses_exe_specs_from_registry_forms() {
    assert_eq!(parse_exe_spec(r#""C:\a\b\dsh-uninstall.exe""#), Some(r"C:\a\b\dsh-uninstall.exe".to_string()));
    assert_eq!(
        parse_exe_spec(r#""C:\a\b\dsh-uninstall.exe" --silent"#),
        Some(r"C:\a\b\dsh-uninstall.exe".to_string())
    );
    assert_eq!(parse_exe_spec(r"C:\a\b\dsh-uninstall.exe /quiet"), Some(r"C:\a\b\dsh-uninstall.exe".to_string()));
    assert_eq!(parse_exe_spec(r"C:\a\b\app.ico,0"), Some(r"C:\a\b\app.ico".to_string()));
    assert_eq!(parse_exe_spec(""), None);
    assert_eq!(parse_exe_spec("   "), None);
    assert_eq!(parse_exe_spec(r"C:\a,b\dsh-uninstall.exe"), Some(r"C:\a,b\dsh-uninstall.exe".to_string()));
}

#[test]
fn residue_target_requires_the_registry_values_to_agree() {
    let dir = r"C:\Users\u\AppData\Local\Programs\DSHLauncher";
    let uninstall = format!(r#""{dir}\dsh-uninstall.exe""#);
    assert_eq!(residue_target_of(dir, &uninstall, "", None).unwrap(), dir.to_string());
    assert_eq!(residue_target_of(dir, "", &format!(r"{dir}\DSHLauncher.exe"), None).unwrap(), dir.to_string());
    assert!(residue_target_of("", &uninstall, "", None).is_err());
    assert!(residue_target_of(r"Programs\DSHLauncher", &uninstall, "", None).is_err());
    assert!(residue_target_of(r"Programs\DSHLauncher", &uninstall, "", Some(r"C:\Users\u\AppData\Local")).is_err());
    assert!(
        residue_target_of(
            r"Programs\DSHLauncher",
            r#""C:\Users\u\AppData\Local\Programs\DSHLauncher\dsh-uninstall.exe""#,
            "",
            Some(r"C:\Users\u\AppData\Local")
        )
        .is_err(),
        "相对的 InstallLocation 一律拒绝，即便拼上工作目录后能对上"
    );
    assert!(residue_target_of(dir, r#""C:\other\dsh-uninstall.exe""#, "", None).is_err());
    assert!(residue_target_of(dir, &format!(r#""{dir}\evil.exe""#), "", None).is_err());
}

#[test]
fn residue_dir_allowed_refuses_intact_install_and_unsafe_dirs() {
    let d = r"C:\Users\u\AppData\Local\Programs\DSHLauncher";
    assert!(residue_dir_allowed(r"C:\Users\u", true, false, false).is_err());
    assert!(residue_dir_allowed(d, false, true, false).is_err());
    assert!(residue_dir_allowed(d, false, false, false).is_ok());
    let err = residue_dir_allowed(d, false, false, true).unwrap_err();
    assert!(err.contains("安装标记"), "{err}");
}

#[test]
fn payload_list_is_exactly_the_documented_set() {
    assert_eq!(
        payloads(),
        vec!["DSHLauncher.exe", "dsh-uninstall.exe", "app.ico", "README.md", "MAINTENANCE.zh.md", "MAINTENANCE.en.md"]
    );
}

fn ctx(self_exe: &str, deferred: bool) -> Context {
    Context {
        install_dir: r"C:\app".to_string(),
        marker: format!(r"C:\app\{MARKER_NAME}"),
        purge: false,
        silent: true,
        dry_run: true,
        self_exe: if deferred {
            r"C:\Users\u\AppData\Local\Temp\dsh-uninstall-abc.exe".to_string()
        } else {
            self_exe.to_string()
        },
        cwd: None,
    }
}

#[test]
fn phase_one_skips_its_own_running_image() {
    let c = ctx(r"C:\app\dsh-uninstall.exe", false);
    let files = c.files_to_remove();
    assert!(!c.is_deferred_pass());
    assert!(!files.iter().any(|p| p.ends_with(SELF_NAME)), "{files:?}");
    assert_eq!(files.len(), (payloads().len() - 1 + legacy_payloads().len()) * 2);
    assert!(files.contains(&r"C:\app\DSHLauncher.exe".to_string()));
    assert!(files.contains(&r"C:\app\DSHLauncher.exe.tmp".to_string()));
    assert!(!files.iter().any(|p| p.ends_with(MARKER_NAME)));
}

#[test]
fn phase_two_also_removes_the_installed_uninstaller() {
    let c = ctx(r"C:\app\dsh-uninstall.exe", true);
    let files = c.files_to_remove();
    assert!(c.is_deferred_pass());
    assert_eq!(files.len(), (payloads().len() + legacy_payloads().len()) * 2);
    assert!(files.contains(&r"C:\app\dsh-uninstall.exe".to_string()));
    assert!(files.contains(&r"C:\app\uninstall.ps1".to_string()));
    assert!(files.contains(&r"C:\app\uninstall.cmd".to_string()));
}

#[test]
fn accepts_the_marker_text_the_installer_actually_writes() {
    let real = "DeepSeek Harness Launcher\r\nversion=5.0.0 LTS\r\ninstalled=2026-09-11 04:00:00\r\ninstall_dir=C:\\Users\\u\\AppData\\Local\\Programs\\DSHLauncher\r\n";
    assert!(marker_is_ours(real));
    assert!(marker_is_ours("DSHLauncher\r\nversion=5.0.0 LTS\r\n"));
    assert!(marker_is_ours("product=DSHLauncher\n"));
    assert!(!marker_is_ours(""));
    assert!(!marker_is_ours("some other product"));
    assert!(!marker_is_ours("version=5.0.0 LTS\n"));
}

#[test]
fn normalize_strips_trailing_separators() {
    assert_eq!(normalize(r"C:\a\b\", None), r"C:\a\b");
    assert_eq!(normalize(r"C:\a\b", None), r"C:\a\b");
}

#[test]
fn uninstall_key_string_matches_the_installer() {
    assert_eq!(UNINSTALL_KEY, r"Software\Microsoft\Windows\CurrentVersion\Uninstall\DSHLauncher");
}
