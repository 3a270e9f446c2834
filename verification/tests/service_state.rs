use dsh_launcher::config::ServiceLifecycle;
use dsh_launcher::process::{classify_dsh_identity_in, ProcessEntry, ProcessTable};
use dsh_launcher::service::{plain_url, ready_url, stopped_message, stops_service_on_exit, ServiceState};
use dsh_launcher::single_instance::{ack_wait_ms, quit_outcome, to_wide, QuitOutcome};

#[test]
fn stopping_is_not_an_active_state() {
    assert!(ServiceState::Starting.is_active());
    assert!(ServiceState::Running.is_active());
    assert!(ServiceState::External.is_active());
    assert!(!ServiceState::Stopping.is_active());
    assert!(!ServiceState::Stopped.is_active());
    assert!(!ServiceState::Error.is_active());
}

#[test]
fn lifecycle_flag_follows_config() {
    assert!(stops_service_on_exit(ServiceLifecycle::Tied));
    assert!(!stops_service_on_exit(ServiceLifecycle::Independent));
}

#[test]
fn service_addresses() {
    assert_eq!(plain_url(3080), "http://127.0.0.1:3080/");
    assert_eq!(ready_url(&None, 3099), "http://127.0.0.1:3099/");
    let tok = Some("http://127.0.0.1:3099/?token=t".to_string());
    assert_eq!(ready_url(&tok, 3099), "http://127.0.0.1:3099/?token=t");
    assert!(!stopped_message(&[]).is_empty());
}

fn table() -> ProcessTable {
    ProcessTable {
        entries: vec![
            ProcessEntry { pid: 10, parent: 1, image_name: "node.exe".into() },
            ProcessEntry { pid: 20, parent: 10, image_name: "node.exe".into() },
            ProcessEntry { pid: 30, parent: 1, image_name: "DSHLauncher.exe".into() },
            ProcessEntry { pid: 40, parent: 1, image_name: "NODE.EXE".into() },
        ],
    }
}

#[test]
fn table_driven_identity_keeps_three_state_semantics() {
    let t = table();
    let id = classify_dsh_identity_in(&t, 0xFFFF_FFFE, None, None);
    assert!(id.is_unknown(), "{}", id.summary());
    let own = classify_dsh_identity_in(&t, 30, None, None);
    assert!(!own.is_dsh() && !own.is_unknown(), "{}", own.summary());
}

#[test]
fn own_process_is_not_dsh_and_says_why() {
    let own = classify_dsh_identity_in(&table(), 30, Some("C:\\x\\DSHLauncher.exe".into()), None);
    assert!(!own.is_dsh());
    assert!(own.summary().contains("DSHLauncher.exe"), "{}", own.summary());
}

#[test]
fn identity_summary_is_always_non_empty() {
    let t = table();
    for pid in [10, 20, 30, 40, 99] {
        let id = classify_dsh_identity_in(&t, pid, None, None);
        assert!(!id.summary().is_empty());
    }
    let dsh = classify_dsh_identity_in(
        &t,
        40,
        Some("C:\\Users\\u\\AppData\\Roaming\\npm\\node_modules\\@deepseek-ai\\dsh\\node.exe".into()),
        None,
    );
    assert!(dsh.is_dsh(), "{}", dsh.summary());
}

#[test]
fn process_table_is_queryable() {
    let t = table();
    assert_eq!(t.len(), 4);
    assert!(!t.is_empty());
    assert_eq!(t.image_name(20), Some("node.exe"));
    assert_eq!(t.parent_of(20), Some(10));
    assert_eq!(t.parent_of(77), None);
}

#[test]
fn quit_with_ack_is_acknowledged() {
    let o = quit_outcome(true, true, true, 120);
    assert_eq!(o, QuitOutcome::Acknowledged);
    assert_eq!(o.exit_code(), 0);
}

#[test]
fn quit_without_instance_reports_no_instance() {
    let o = quit_outcome(false, false, false, 0);
    assert_eq!(o, QuitOutcome::NoInstance);
    assert_eq!(o.exit_code(), 0);
    assert!(!o.describe().is_empty());
}

#[test]
fn quit_without_ack_is_unresolved_and_nonzero() {
    let o = quit_outcome(true, true, false, 20_000);
    assert!(matches!(o, QuitOutcome::Sent { .. }), "{o:?}");
    assert_ne!(o.exit_code(), 0);
    assert!(o.describe().contains("20 秒内未收到回执"), "{}", o.describe());
    assert_eq!(quit_outcome(true, false, false, 5), QuitOutcome::Sent { waited_ms: 0 });
}

#[test]
fn wide_names_and_waits() {
    assert_eq!(to_wide("ab"), vec![97u16, 98, 0]);
    assert_eq!(ack_wait_ms(20_000), 20_000);
    assert_eq!(ack_wait_ms(u64::MAX), u32::MAX);
}
