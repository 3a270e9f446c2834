use dsh_launcher::crash::{write_fatal, FATAL_LINE_CAPACITY};

#[test]
fn fatal_line_fits_without_truncation() {
    let buf = write_fatal(FATAL_LINE_CAPACITY, 0xC000_0005, 0x7FF6_1234_5678, 1234, 4242);
    let n = buf.len();
    let s = String::from_utf8_lossy(&buf);
    assert!(n > 0 && n < FATAL_LINE_CAPACITY, "缓冲不应被填满（否则无法排除截断）：{n}");
    assert!(s.contains("[FATAL]"), "{s}");
    assert!(s.contains("code=0xC0000005"), "{s}");
    assert!(s.contains("address=0x00007FF612345678"), "{s}");
    assert!(s.contains("pid="), "{s}");
    assert!(s.contains("tid="), "{s}");
    assert!(s.ends_with('\n'), "必须以换行结尾，否则会与下一条日志粘连：{s:?}");
}

#[test]
fn fatal_line_handles_extreme_values() {
    let buf = write_fatal(FATAL_LINE_CAPACITY, 0, usize::MAX, u32::MAX, u32::MAX);
    let n = buf.len();
    let s = String::from_utf8_lossy(&buf);
    assert!(n > 0 && n < FATAL_LINE_CAPACITY, "极端值也不得填满缓冲：{n}");
    assert!(s.contains("code=0x00000000"), "{s}");
    assert!(s.contains("FFFFFFFFFFFFFFFF"), "{s}");
}

#[test]
fn fatal_line_exact_ids_and_tiny_buffer() {
    let full = String::from_utf8(write_fatal(FATAL_LINE_CAPACITY, 0x1F, 0x10, 7, 0)).unwrap();
    assert!(full.contains(" pid=7 tid=0"), "{full}");
    assert!(full.contains("code=0x0000001F"), "{full}");
    let cut = write_fatal(8, 0x1F, 0x10, 7, 0);
    assert_eq!(cut, b"[FATAL] ".to_vec());
}
