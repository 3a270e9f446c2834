use std::collections::BTreeMap;
use dsh_launcher::logfile::{archive_name, log_line, rotation_plan, should_rotate, timestamp_text, DEFAULT_MAX_LOG_FILES};

#[test]
fn timestamp_is_reasonable() {
    let t = timestamp_text(2026, 9, 1, 4, 5, 6);
    assert_eq!(t, "2026-09-01 04:05:06");
    assert_eq!(t.len(), 19);
    assert!(t.starts_with("202"));
}

#[test]
fn log_lines_are_whole_and_redacted() {
    let l = log_line("2026-09-01 04:05:06", "INFO", "url ?token=abc");
    assert_eq!(l, "[2026-09-01 04:05:06] [INFO] url ?token=***\n");
    let w = log_line("t", "WARN", "x");
    assert!(w.starts_with('[') && w.contains("] [WARN] "));
}

#[test]
fn rotates_before_exceeding_threshold_and_keeps_max_files() {
    assert!(!should_rotate(4000, 96, 4096));
    assert!(should_rotate(4000, 97, 4096));
    assert!(should_rotate(4097, 0, 4096));
    assert!(!should_rotate(0, 10_000, 4096), "空文件总是接收下一行");
    let p = rotation_plan(DEFAULT_MAX_LOG_FILES);
    assert_eq!(p.shifts, vec![(1, 2)]);
    assert!(p.current_to_first && !p.discard_current);
    assert_eq!(p.overflow, Some(3));
    let p5 = rotation_plan(5);
    assert_eq!(p5.shifts, vec![(3, 4), (2, 3), (1, 2)]);
    assert_eq!(p5.overflow, Some(5));
    let p1 = rotation_plan(1);
    assert!(p1.discard_current && p1.shifts.is_empty() && p1.overflow.is_none());
    assert_eq!(archive_name(2), "launcher.log.2");
}

#[test]
fn every_archive_stays_within_the_limit() {
    let max = 100u64;
    let mut live = 0u64;
    let mut archived: Vec<u64> = Vec::new();
    for line in [60u64, 50, 30, 80, 100, 1, 99, 7] {
        if should_rotate(live, line, max) {
            archived.push(live);
            live = 0;
        }
        live += line;
    }
    assert_eq!(archived, vec![60, 80, 80, 100, 100]);
    assert_eq!(live, 7);
    assert!(archived.iter().all(|&a| a <= max));
}

#[test]
fn a_run_of_writes_keeps_the_file_count_and_sizes() {
    let (max_size, max_files) = (100u64, 3u32);
    // key 0: launcher.log; key k: launcher.log.k
    let mut files: BTreeMap<u32, u64> = BTreeMap::new();
    let plan = rotation_plan(max_files);
    for line in [60u64, 50, 30, 80, 100, 1, 99, 7, 42, 58, 1] {
        let live = *files.entry(0).or_insert(0);
        if should_rotate(live, line, max_size) {
            for (from, to) in &plan.shifts {
                if let Some(v) = files.remove(from) {
                    files.insert(*to, v);
                }
            }
            if plan.discard_current {
                files.remove(&0);
            } else if plan.current_to_first {
                let v = files.remove(&0).unwrap();
                files.insert(1, v);
            }
            if let Some(o) = plan.overflow {
                files.remove(&o);
            }
        }
        *files.entry(0).or_insert(0) += line;
        assert!(files.len() <= max_files as usize, "{files:?}");
        assert!(files.keys().all(|&k| k < max_files));
        assert!(files.values().all(|&v| v <= max_size), "{files:?}");
    }
    assert_eq!(files.get(&0), Some(&59));
}
