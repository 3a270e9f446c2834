use dsh_launcher::config::{ConfigError, ServiceLifecycle, Settings, CURRENT_SCHEMA_VERSION};
use dsh_launcher::process::ChildLifecycle;

#[test]
fn defaults_are_sane() {
    let s = Settings::default();
    assert_eq!(s.port, 3080);
    assert!(s.tray_on_close);
    assert!(s.effective_work_dir().is_none());
    assert_eq!(s.service_lifecycle, ServiceLifecycle::Independent);
    assert_eq!(s.schema_version, CURRENT_SCHEMA_VERSION);
    assert!(s.stop_stale_orphan);
}

#[test]
fn lifecycle_maps_to_child_lifecycle() {
    assert_eq!(ServiceLifecycle::Independent.to_child_lifecycle(), ChildLifecycle::Independent);
    assert_eq!(ServiceLifecycle::Tied.to_child_lifecycle(), ChildLifecycle::Tied);
}

#[test]
fn newer_schema_is_flagged() {
    let mut s = Settings::default();
    assert!(!s.is_from_newer_schema());
    s.schema_version = CURRENT_SCHEMA_VERSION + 1;
    assert!(s.is_from_newer_schema());
}

#[test]
fn rejects_zero_port() {
    let s = Settings { port: 0, ..Default::default() };
    assert!(s.validate().is_err());
}

#[test]
fn zero_port_error_names_the_problem() {
    let s = Settings { port: 0, ..Default::default() };
    match s.validate() {
        Err(ConfigError::Invalid(m)) => assert!(m.contains("port"), "{m}"),
        other => panic!("expected Invalid, got {other:?}"),
    }
}

#[test]
fn parses_legacy_ini_shape_with_the_real_parser() {
    let raw = "# c\n[section]\nport=3099\ntrayonclose=false\nworkdir=D:\\ws\n\n";
    let s = Settings::parse_ini(raw).expect("known keys give a migration");
    assert_eq!(s.port, 3099);
    assert!(!s.tray_on_close);
    assert_eq!(s.work_dir, "D:\\ws");
    let s2 = Settings::parse_ini("  PORT = 3100  \r\n").expect("upper-case key");
    assert_eq!(s2.port, 3100);
    assert!(Settings::parse_ini("mystery=1").is_none());
    assert!(Settings::parse_ini("port=not-a-number").is_none());
    assert!(Settings::parse_ini("port=99999").is_none(), "a port beyond u16 is ignored");
    assert!(Settings::parse_ini("").is_none());
}

#[test]
fn migrated_settings_are_validated() {
    let bad = Settings::parse_ini("port=0").expect("port=0 parses");
    assert!(bad.validate().is_err());
    let good = Settings::parse_ini("port=3080").expect("parses");
    assert!(good.validate().is_ok());
}

#[test]
fn effective_work_dir_ignores_blank() {
    let s = Settings { work_dir: "   ".to_string(), ..Default::default() };
    assert!(s.effective_work_dir().is_none());
    let s = Settings { work_dir: "D:\\ws".to_string(), ..Default::default() };
    assert_eq!(s.effective_work_dir(), Some("D:\\ws"));
}

#[test]
fn lifecycle_labels() {
    assert!(ServiceLifecycle::Independent.label().starts_with("independent"));
    assert!(ServiceLifecycle::Tied.label().starts_with("tied"));
}
