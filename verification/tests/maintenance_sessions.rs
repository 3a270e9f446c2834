use dsh_launcher::maintenance::{
    archived_session_ids, cleanup_detail, count_session_runner_processes, dsh_home,
    is_lock_file_name, is_orphan_lock, is_session_file_name, is_valid_session_id, lock_owner_pid,
    match_bracket, rewrite_archived_list, settle_archived_ids, skips_lock_scan_dir, splice_archived_list,
    unique_key_index, ActiveSessions, MaintenanceError, SessionFileSeen,
};
use dsh_launcher::maintenance::{dsh_home_opt_in, removable_ids, proj_cache_dir_in, sessions_root_in, workspace_json_path_in};
use dsh_launcher::paths::PlatformDirs;

const UUID: &str = "a1b2c3d4-e5f6-4789-8abc-def012345678";

#[test]
fn valid_id_is_44_chars() {
    let id = format!("session-{UUID}");
    assert_eq!(id.len(), 44);
    assert!(is_valid_session_id(&id));
}

#[test]
fn rejects_traversal_and_short_ids() {
    assert!(!is_valid_session_id("session-../../evil"));
    assert!(!is_valid_session_id(&format!("session-{}", &UUID[..35])));
    assert!(!is_valid_session_id("other-a1b2c3d4"));
    assert!(!is_valid_session_id(""));
}

#[test]
fn parses_archived_list() {
    let raw = r#"{"x":1,"archivedSessionIds": ["session-a1b2c3d4-e5f6-4789-8abc-def012345678", "session-00000000-0000-0000-0000-000000000000"],"y":2}"#;
    let ids = archived_session_ids(raw);
    assert_eq!(ids.len(), 2);
    assert_eq!(ids[0], format!("session-{UUID}"));
}

#[test]
fn empty_and_missing_list() {
    assert!(archived_session_ids(r#"{"archivedSessionIds": []}"#).is_empty());
    assert!(archived_session_ids(r#"{"nothing": 1}"#).is_empty());
}

#[test]
fn duplicate_key_is_refused() {
    let dup = r#"{"a":{"archivedSessionIds":["x"]},"archivedSessionIds":["session-00000000-0000-0000-0000-000000000000"]}"#;
    assert!(archived_session_ids(dup).is_empty(), "a repeated key is refused");
    assert_eq!(unique_key_index(dup, "\"archivedSessionIds\""), None);
    let ok = r#"{"archivedSessionIds":["x"]}"#;
    assert!(unique_key_index(ok, "\"archivedSessionIds\"").is_some());
}

#[test]
fn bracket_matcher_handles_nesting_and_escapes() {
    let s = r#"["a]b", ["c"], "d"]"#;
    assert_eq!(match_bracket(s, 0), Some(s.len() - 1));
    let obj = r#"{"k": [1,2], "j": "}"}"#;
    assert_eq!(match_bracket(obj, 0), Some(obj.len() - 1));
    assert_eq!(match_bracket(obj, 6), Some(10));
    let esc = r#"["a\"]b"]"#;
    assert_eq!(match_bracket(esc, 0), Some(esc.len() - 1));
    assert_eq!(match_bracket(s, 1), None);
    assert_eq!(match_bracket(r#"["a""#, 0), None);
    assert_eq!(match_bracket("[}", 0), None);
}

#[test]
fn parses_ids_with_escapes_via_serde() {
    let raw = r#"{"archivedSessionIds":["session-a1b2c3d4-e5f6-4789-8abc-def012345678"]}"#;
    assert_eq!(archived_session_ids(raw).len(), 1);
    let tricky = r#"{"archivedSessionIds":["x]y","z"]}"#;
    assert_eq!(archived_session_ids(tricky).len(), 2);
    assert!(archived_session_ids(r#"{"archivedSessionIds":[1,2]}"#).is_empty());
}

#[test]
fn rewrite_refuses_invalid_json_document() {
    let broken = r#"{"archivedSessionIds":["session-x"], "#;
    assert!(matches!(rewrite_archived_list(broken, &[]), Ok(None)), "a text that is no JSON stays as it is");
}

#[test]
fn rewrite_refuses_to_break_json() {
    let raw = r#"{"archivedSessionIds": ["session-a1b2c3d4-e5f6-4789-8abc-def012345678"], "other": 1}"#;
    let after = rewrite_archived_list(raw, &[]).unwrap().expect("rewritten");
    assert!(serde_json::from_str::<serde_json::Value>(&after).is_ok());
    assert!(after.contains("\"archivedSessionIds\": []"), "{after}");
    assert!(after.contains("\"other\": 1"), "{after}");
    let dup = r#"{"archivedSessionIds":[],"x":{"archivedSessionIds":[]}}"#;
    assert!(matches!(rewrite_archived_list(dup, &[]), Ok(None)));
}

#[test]
fn rewrite_keeps_the_remaining_ids() {
    let raw = r#"{"archivedSessionIds":["a","b"]}"#;
    let after = rewrite_archived_list(raw, &["b".to_string()]).unwrap().unwrap();
    assert_eq!(after, r#"{"archivedSessionIds":["b"]}"#);
    assert_eq!(archived_session_ids(&after), vec!["b".to_string()]);
}

#[test]
fn removes_only_lock_files_in_tree() {
    assert!(is_lock_file_name(".credentials.yaml.lock"));
    assert!(is_lock_file_name("workspace.json.LOCK"));
    assert!(!is_lock_file_name(".credentials.yaml"));
    assert!(!is_lock_file_name("workspace.json"));
}

#[test]
fn skips_bulky_dirs() {
    assert!(skips_lock_scan_dir("sessions"));
    assert!(!skips_lock_scan_dir("storages"));
}

#[test]
fn live_pid_lock_is_not_orphan() {
    let owner = lock_owner_pid("1234\n");
    assert_eq!(owner, Some(1234));
    assert!(!is_orphan_lock(owner, true, true), "a live owner keeps its lock");
}

#[test]
fn dead_pid_lock_is_orphan() {
    let owner = lock_owner_pid("4294967294\n");
    assert_eq!(owner, Some(4294967294));
    assert!(is_orphan_lock(owner, false, false), "a dead owner's lock is an orphan");
}

#[test]
fn unparseable_lock_requires_settle_time() {
    let owner = lock_owner_pid("");
    assert_eq!(owner, None);
    assert!(!is_orphan_lock(owner, false, false), "a fresh empty lock is no orphan yet");
    assert!(is_orphan_lock(owner, false, true), "an empty lock that settled is an orphan");
}

#[test]
fn dsh_home_points_under_user_profile() {
    let h = dsh_home();
    assert!(h.ends_with(".dsh"), "got {h:?}");
}

#[test]
fn active_sessions_summary_is_actionable() {
    let none = ActiveSessions { runner_processes: 0, recently_written: 0, recent_session_hint: vec![] };
    assert!(!none.any_activity() && !none.is_running());
    assert!(none.summary().contains("未检测到"));
    let running = ActiveSessions {
        runner_processes: 2,
        recently_written: 1,
        recent_session_hint: vec!["session-x".into()],
    };
    assert!(running.is_running() && running.any_activity());
    let s = running.summary();
    assert!(s.contains("2 个正在运行的会话进程"), "{s}");
    assert!(s.contains("1 个会话文件"), "{s}");
    let soft = ActiveSessions { runner_processes: 0, recently_written: 3, recent_session_hint: vec![] };
    assert!(!soft.is_running() && soft.any_activity());
    assert!(!soft.summary().contains("正在运行的会话进程"), "{}", soft.summary());
}

#[test]
fn active_session_probe_is_safe_and_descriptive() {
    let files = vec![
        SessionFileSeen { name: "session.jsonl".into(), parent_name: Some("s1".into()), age_nanos: Some(1) },
        SessionFileSeen { name: "session.jsonl".into(), parent_name: Some("s1".into()), age_nanos: Some(2) },
        SessionFileSeen { name: "session.jsonl".into(), parent_name: Some("s2".into()), age_nanos: None },
    ];
    let a = ActiveSessions::from_scan(0, &files);
    assert_eq!(a.recently_written, 2);
    assert_eq!(a.recent_session_hint, vec!["s1".to_string()]);
    assert!(a.recent_session_hint.len() <= 3);
    assert!(a.any_activity() && !a.is_running());
}

#[test]
fn session_files_and_runner_counts() {
    assert!(is_session_file_name("session-abc.jsonl"));
    assert!(!is_session_file_name("notes.txt"));
    assert_eq!(count_session_runner_processes(Some(" 3 \r\n".into())), 3);
    assert_eq!(count_session_runner_processes(Some("x".into())), 0);
    assert_eq!(count_session_runner_processes(None), 0);
}

#[test]
fn cleanup_settles_ids_and_reports() {
    let a = format!("session-{UUID}");
    let b = "session-00000000-0000-0000-0000-000000000000".to_string();
    let bad = "session-../../evil".to_string();
    let ids = vec![a.clone(), b.clone(), bad.clone()];
    let r = settle_archived_ids(&ids, &[true, false, false]);
    assert_eq!(r.cleaned, vec![a]);
    assert_eq!(r.pruned, vec![bad]);
    assert_eq!(r.remaining, vec![b]);
    assert_eq!(cleanup_detail(1, 1, 3), "已清理 1 / 3 个归档会话，并剔除 1 个格式非法的列表项。 其余 1 个删除失败（可能被占用），已保留在归档列表，可稍后重试。");
    assert!(cleanup_detail(0, 0, 2).starts_with("未能清理任何归档会话（共 2 个）"));
}

#[test]
fn maintenance_error_message_names_the_io_failure() {
    let e = MaintenanceError::Io("磁盘已满".to_string());
    assert_eq!(e.message(), "IO 错误：磁盘已满");
}

#[test]
fn splice_takes_an_already_encoded_list() {
    let raw = r#"{"archivedSessionIds":["a","b"],"n":2}"#;
    assert_eq!(splice_archived_list(raw, r#"["x","y\"z"]"#).unwrap(), r#"{"archivedSessionIds":["x","y\"z"],"n":2}"#);
    assert_eq!(splice_archived_list(raw, r#"["broken"#), None, "a splice that breaks the document is not written");
    assert_eq!(splice_archived_list("not json", "[]"), None);
}

#[test]
fn dsh_folders_hang_off_the_profile_folder() {
    let d = PlatformDirs { config: None, data_local: None, home: Some("C:\\Users\\u".to_string()) };
    assert_eq!(dsh_home_opt_in(&d).as_deref(), Some("C:\\Users\\u\\.dsh"));
    assert_eq!(workspace_json_path_in(&d).as_deref(), Some("C:\\Users\\u\\.dsh\\storages\\workspace.json"));
    assert_eq!(sessions_root_in(&d).as_deref(), Some("C:\\Users\\u\\.dsh\\sessions"));
    assert_eq!(
        proj_cache_dir_in(&d).as_deref(),
        Some("C:\\Users\\u\\.dsh\\storages\\session_projcache\\sessions")
    );
    let unknown = PlatformDirs { config: None, data_local: None, home: None };
    assert_eq!(dsh_home_opt_in(&unknown), None, "no profile folder means no fallback to the working directory");
    assert_eq!(sessions_root_in(&unknown), None);
}

#[test]
fn only_valid_archived_ids_reach_the_file_system() {
    let ids = vec![
        format!("session-{UUID}"),
        "session-../../evil".to_string(),
        "..".to_string(),
        format!("session-{}", &UUID[..35]),
    ];
    assert_eq!(removable_ids(&ids), vec![true, false, false, false]);
    assert!(removable_ids(&[]).is_empty());
}
