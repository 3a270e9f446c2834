use dsh_launcher::buildinfo::{build_rc, host_arch, newest_sdk_dir, numeric_version, parse_version, Spec, COMPANY_NAME, COPYRIGHT};
use dsh_launcher::PRODUCT_NAME;

#[test]
fn parses_workspace_version() {
    assert_eq!(numeric_version("5.0.0"), Some((5, 0, 0, 0)));
    assert_eq!(numeric_version("5.0.0-alpha.1"), Some((5, 0, 0, 0)));
    assert_eq!(numeric_version("5.0.0+build.7"), Some((5, 0, 0, 0)));
    assert_eq!(numeric_version("5"), Some((5, 0, 0, 0)));
    assert_eq!(numeric_version("5.1"), Some((5, 1, 0, 0)));
    assert_eq!(numeric_version("bogus"), None);
    assert_eq!(numeric_version("5.0.0.1"), None);
}

#[test]
fn sdk_dir_names_are_not_versions() {
    assert_eq!(parse_version("10.0.26100.0"), Some(vec![10, 0, 26100, 0]));
    assert_eq!(parse_version("x64"), None);
    assert_eq!(parse_version("arm64"), None);
    assert_eq!(parse_version("chpe"), None);
    assert_eq!(parse_version("WppConfig"), None);
}

#[test]
fn host_arch_is_a_known_sdk_dir() {
    assert!(matches!(host_arch("x86_64"), "x64" | "arm64"));
    assert_eq!(host_arch("x86_64"), "x64");
    assert_eq!(host_arch("aarch64"), "arm64");
}

#[test]
fn newest_sdk_dir_is_picked_by_version() {
    let names: Vec<String> = ["10.0.19041.0", "x64", "10.0.26100.0", "10.0.22621.0", "10.0.26100.0"]
        .iter()
        .map(|s| s.to_string())
        .collect();
    assert_eq!(newest_sdk_dir(&names, &vec![true, true, true, true, true]), Some(2));
    assert_eq!(newest_sdk_dir(&names, &vec![true, true, false, true, true]), Some(4));
    assert_eq!(newest_sdk_dir(&names, &vec![false, true, false, false, false]), None);
}

fn spec(icon: &str, label: &str) -> Spec {
    Spec {
        manifest_dir: r"D:\repo".into(),
        out_dir: r"D:\repo\target\out".into(),
        icon_path: icon.into(),
        version: "5.0.0".into(),
        product_name: PRODUCT_NAME.into(),
        file_description: "DeepSeek Harness Launcher".into(),
        company_name: COMPANY_NAME.into(),
        copyright: COPYRIGHT.into(),
        original_filename: "DSHLauncher.exe".into(),
        base_name: "dsh_app".into(),
        generated_label: label.into(),
        permit_missing: false,
    }
}

#[test]
fn rc_contains_version_icon_and_label() {
    let icon = r"D:\repo\app.ico";
    let rc = build_rc(&spec(icon, "launcher"), (5, 0, 0, 0), true);
    assert!(rc.contains("FILEVERSION 5,0,0,0"));
    assert!(rc.contains("PRODUCTVERSION 5,0,0,0"));
    assert!(rc.contains(r#"VALUE "ProductVersion", "5.0.0""#));
    assert!(rc.contains(r#"VALUE "OriginalFilename", "DSHLauncher.exe""#));
    assert!(rc.contains(r#"VALUE "CompanyName", "KristoffersonLee""#));
    assert!(rc.contains("(launcher)"), "{rc}");
    assert!(rc.contains(r#"1 ICON DISCARDABLE "D:\\repo\\app.ico""#), "{rc}");
    assert!(rc.contains("BLOCK \"080404b0\""));
}

#[test]
fn missing_icon_omits_the_icon_line_but_keeps_version_info() {
    let rc = build_rc(&spec(r"D:\nope\missing.ico", "launcher"), (5, 0, 0, 0), false);
    assert!(!rc.contains("ICON DISCARDABLE"), "{rc}");
    assert!(rc.contains("FILEVERSION 5,0,0,0"));
    assert!(rc.starts_with("\n1 VERSIONINFO\n"));
}

#[test]
fn uninstaller_resource_uses_its_own_filename_and_label() {
    let mut s = spec(r"D:\repo\app.ico", "uninstaller");
    s.original_filename = "dsh-uninstall.exe".into();
    s.base_name = "dsh_uninstall".into();
    let rc = build_rc(&s, (5, 0, 0, 0), true);
    assert!(rc.contains(r#"VALUE "OriginalFilename", "dsh-uninstall.exe""#));
    assert!(rc.contains("(uninstaller)"), "{rc}");
}
