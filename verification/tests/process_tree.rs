use dsh_launcher::process::{
    classify_dsh_identity_in, classify_stdout_line, exe_name_from_wide, filetime_to_unix,
    identity_report, kill_order, late_descendants, node_args, tree_layer, truncate_chars, ProcessEntry,
    ProcessTable, StdoutLine, EPOCH_DIFF_TICKS, MAX_STDERR_LINE_CHARS,
};

fn table() -> ProcessTable {
    let e = |pid: u32, parent: u32, name: &str| ProcessEntry { pid, parent, image_name: name.to_string() };
    ProcessTable {
        entries: vec![
            e(1, 0, "init"),
            e(10, 1, "node.exe"),
            e(11, 10, "cmd.exe"),
            e(12, 10, "node.exe"),
            e(13, 12, "conhost.exe"),
            e(20, 1, "other.exe"),
        ],
    }
}

#[test]
fn filetime_keeps_sub_second_precision() {
    let ticks = EPOCH_DIFF_TICKS + 10_000_000 + 5_000_000;
    let (secs, nanos) = filetime_to_unix((ticks >> 32) as u32, (ticks & 0xFFFF_FFFF) as u32).expect("converts");
    assert_eq!(secs, 1);
    assert_eq!(nanos, 500_000_000, "sub-second precision is kept");
    assert!(filetime_to_unix(0, 0).is_none(), "1601 is before the UNIX epoch");
}

#[test]
fn tree_is_collected_parents_first_without_repeats() {
    let t = table();
    let mut order = Vec::new();
    let mut frontier = vec![10u32];
    while !frontier.is_empty() {
        frontier = tree_layer(&mut order, &frontier, &t);
    }
    assert_eq!(order, vec![10, 11, 12, 13]);
    // terminating in reverse kills descendants before their parents
    assert_eq!(kill_order(&order), vec![13, 12, 11, 10]);
    assert!(kill_order(&Vec::new()).is_empty());
    let mut again = order.clone();
    let next = tree_layer(&mut again, &[10, 12], &t);
    assert_eq!(again, order, "collected pids are not collected again");
    assert!(next.is_empty());
}

#[test]
fn kill_process_tree_of_absent_pid_is_empty() {
    let t = table();
    assert!(t.child_pids_of(999).is_empty());
}

#[test]
fn late_children_of_the_tree_are_found() {
    let mut t = table();
    t.entries.push(ProcessEntry { pid: 30, parent: 12, image_name: "late.exe".into() });
    let late = late_descendants(&t, &vec![10, 11, 12, 13]);
    assert_eq!(late, vec![30]);
}

#[test]
fn exe_names_are_read_up_to_the_nul() {
    let mut w: Vec<u16> = "node.exe".encode_utf16().collect();
    w.push(0);
    w.extend_from_slice(&[0x41, 0x42]);
    assert_eq!(exe_name_from_wide(&w), "node.exe");
    let full: Vec<u16> = "中文.exe".encode_utf16().collect();
    assert_eq!(exe_name_from_wide(&full), "中文.exe");
}

#[test]
fn unpaired_surrogates_become_replacement_characters() {
    // a lone high surrogate before 'a', a lone low surrogate, then a valid pair
    let w: Vec<u16> = vec![0xD800, 0x61, 0xDC00, 0xD83D, 0xDE00, 0];
    assert_eq!(exe_name_from_wide(&w), "\u{FFFD}a\u{FFFD}\u{1F600}");
}

#[test]
fn node_is_started_for_the_web_ui_without_a_browser() {
    let a = node_args("C:\\npm\\bin.js", 3080);
    assert_eq!(a, vec!["C:\\npm\\bin.js", "web", "--host", "127.0.0.1", "--port", "3080", "--no-open"]);
}

#[test]
fn stdout_lines_are_classified() {
    assert_eq!(
        classify_stdout_line("dsh web: http://127.0.0.1:3080/?token=a", true, false),
        StdoutLine::Ready("http://127.0.0.1:3080/?token=a".into())
    );
    assert_eq!(
        classify_stdout_line("dsh web: opening the default browser; pass --no-open to disable", true, false),
        StdoutLine::BrowserNotice
    );
    assert_eq!(classify_stdout_line("listening on 127.0.0.1:3080", true, false), StdoutLine::ShapeWarning);
    assert_eq!(classify_stdout_line("listening on 127.0.0.1:3080", true, true), StdoutLine::Ignore);
    assert_eq!(classify_stdout_line("listening on 127.0.0.1:3080", false, false), StdoutLine::Ignore);
    assert_eq!(classify_stdout_line("plain", true, false), StdoutLine::Ignore);
}

#[test]
fn stderr_lines_are_cut_by_characters() {
    assert_eq!(truncate_chars("short", MAX_STDERR_LINE_CHARS), "short");
    assert_eq!(truncate_chars("中文字符", 2), "中文…（已截断）");
    assert_eq!(truncate_chars("abc", 3), "abc");
}

#[test]
fn identity_report_lists_the_evidence() {
    let id = classify_dsh_identity_in(&table(), 20, None, None);
    let r = identity_report(20, &id);
    assert!(r.starts_with("pid=20\nverdict=NotDsh\nimage_name=other.exe\n"), "{r}");
    assert!(r.contains("\nsummary=不是 dsh（"), "{r}");
    assert!(r.ends_with('\n'));
}

#[test]
fn unreadable_process_is_unknown_not_notdsh() {
    let id = classify_dsh_identity_in(&table(), 0xFFFF_FFFE, None, None);
    assert!(id.is_unknown(), "读不到信息的 PID 必须判为 Unknown，实际：{}", id.summary());
    assert!(!id.is_dsh());
    assert!(!id.steps().note.is_empty(), "Unknown 必须给出原因");
}
