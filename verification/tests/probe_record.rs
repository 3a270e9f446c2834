use dsh_launcher::paths::{
    app_data_dir, app_data_dir_in, edge_profile_dir_in, join_path, local_data_dir, local_data_dir_in, log_dir_in,
    webview_data_dir_in, PlatformDirs,
};
use dsh_launcher::probe::{after_probe, next_probe_interval_ms, probe_budget_ms, ProbeError, ProbeStep, ReadyProbe};
use dsh_launcher::service_record::{
    accept_record, legacy_record_path, legacy_record_path_in, reconcile, record_path, record_path_in, Reconciliation,
    ServiceRecord, RECORD_VERSION,
};

#[test]
fn generation_bumps() {
    let p = ReadyProbe::new(3080);
    assert_eq!(p.generation(), 0);
    assert_eq!(p.bump_generation(), 1);
    assert_eq!(p.generation(), 1);
}

#[test]
fn clone_shares_generation_counter() {
    let p = ReadyProbe::new(3080);
    let clone = p.clone();
    p.bump_generation();
    assert_eq!(clone.generation(), 1, "a clone sees the original's bump");
    clone.bump_generation();
    assert_eq!(p.generation(), 2, "the original sees the clone's bump");
}

#[test]
fn probe_port_and_interval() {
    let mut p = ReadyProbe::new(3080);
    assert_eq!(p.port(), 3080);
    p.set_port(3099);
    assert_eq!(p.port(), 3099);
    assert_eq!(next_probe_interval_ms(200, 5000), (200, 400));
    assert_eq!(next_probe_interval_ms(800, 300), (300, 1000));
    assert_eq!(next_probe_interval_ms(1000, 5000), (1000, 1000));
    assert!(ProbeError::Timeout.message().contains("超时"));
}

fn rec(pid: u32, start: u64) -> ServiceRecord {
    ServiceRecord::from_facts(pid, 3080, "C:\\nodejs\\node.exe", start, 99, 1_700_000_010)
}

#[test]
fn dead_pid_is_not_valid() {
    let r = rec(0xFFFF_FFFE, 0);
    assert!(!r.still_valid(false, None, false), "a dead process is no valid record");
}

#[test]
fn pid_reuse_is_rejected_by_start_time() {
    let actual = 1_700_000_000u64;
    let r = rec(4242, actual - 10 * 24 * 3600);
    assert!(!r.still_valid(true, Some((actual, 0)), true), "a different creation time is a reused pid");
    let ok = rec(4242, actual);
    assert!(ok.still_valid(true, Some((actual + 1, 500_000_000)), true));
    assert!(!ok.still_valid(true, Some((actual + 3, 0)), true));
    assert!(!ok.still_valid(true, None, true));
    assert!(!ok.still_valid(true, Some((actual, 0)), false));
}

#[test]
fn record_lives_under_local_app_data_not_roaming_config() {
    let p = record_path();
    assert!(p.ends_with("service.json"));
    assert!(p.starts_with(&local_data_dir()));
    assert_eq!(legacy_record_path(), join_path(&app_data_dir(), "service.json"));
    assert_ne!(record_path(), legacy_record_path());
}

fn sample_dirs() -> PlatformDirs {
    PlatformDirs {
        config: Some("C:\\Users\\u\\AppData\\Roaming".to_string()),
        data_local: Some("C:\\Users\\u\\AppData\\Local\\".to_string()),
        home: None,
    }
}

#[test]
fn record_path_is_built_from_the_local_folder() {
    let d = sample_dirs();
    assert_eq!(record_path_in(&d), "C:\\Users\\u\\AppData\\Local\\DSHLauncher\\service.json");
    assert_eq!(legacy_record_path_in(&d), "C:\\Users\\u\\AppData\\Roaming\\DSHLauncher\\service.json");
    assert_eq!(app_data_dir_in(&d), "C:\\Users\\u\\AppData\\Roaming\\DSHLauncher");
    assert_eq!(local_data_dir_in(&d), "C:\\Users\\u\\AppData\\Local\\DSHLauncher");
    assert_eq!(log_dir_in(&d), "C:\\Users\\u\\AppData\\Local\\DSHLauncher\\logs");
    assert_eq!(webview_data_dir_in(&d), "C:\\Users\\u\\AppData\\Local\\DSHLauncher\\webview2-profile");
    assert_eq!(edge_profile_dir_in(&d), "C:\\Users\\u\\AppData\\Local\\DSHLauncher\\edge-profile");
}

#[test]
fn unknown_folders_fall_back_to_the_current_directory() {
    let d = PlatformDirs { config: None, data_local: None, home: None };
    assert_eq!(record_path_in(&d), ".\\DSHLauncher\\service.json");
    assert_eq!(app_data_dir_in(&d), ".\\DSHLauncher");
}

#[test]
fn unknown_version_is_ignored() {
    let mut r = rec(1, 0);
    r.version = 999;
    assert_eq!(accept_record(r), None);
    let good = rec(1, 0);
    assert_eq!(good.version, RECORD_VERSION);
    assert_eq!(accept_record(good.clone()), Some(good));
}

#[test]
fn reconciliation_covers_each_case() {
    assert!(matches!(reconcile(None, false, false, false), Reconciliation::NoRecord));
    assert_eq!(reconcile(Some(rec(7, 0)), true, true, true), Reconciliation::Adopt { pid: 7, port: 3080 });
    assert_eq!(reconcile(Some(rec(7, 0)), true, true, false), Reconciliation::Orphan { pid: 7, port: 3080 });
    match reconcile(Some(rec(7, 0)), false, false, false) {
        Reconciliation::Stale { reason } => assert_eq!(reason, "记录的 PID 7 已退出"),
        other => panic!("expected Stale, got {other:?}"),
    }
    match reconcile(Some(rec(7, 0)), true, false, true) {
        Reconciliation::Stale { reason } => assert!(reason.contains("PID 复用"), "{reason}"),
        other => panic!("expected Stale, got {other:?}"),
    }
}

#[test]
fn probe_steps_follow_connection_generation_and_budget() {
    assert_eq!(probe_budget_ms(0), None);
    assert_eq!(probe_budget_ms(300), Some(300));
    assert_eq!(probe_budget_ms(5000), Some(800));
    assert_eq!(after_probe(true, 1, 2, 0, 200), ProbeStep::Ready);
    assert_eq!(after_probe(false, 1, 2, 5000, 200), ProbeStep::GiveUp(ProbeError::GenerationChanged));
    assert_eq!(after_probe(false, 1, 1, 0, 200), ProbeStep::GiveUp(ProbeError::Timeout));
    assert_eq!(after_probe(false, 1, 1, 5000, 200), ProbeStep::Pause { sleep_ms: 200, next_interval_ms: 400 });
    assert_eq!(after_probe(false, 1, 1, 150, 800), ProbeStep::Pause { sleep_ms: 150, next_interval_ms: 1000 });
}
