use dsh_launcher::dsh::{
    bin_js_candidates, bin_js_under, check_node_override, choose_node, is_browser_open_notice, is_loopback_url,
    is_node_exe_path, looks_like_ready_line, node_missing_error, parse_node_version,
    parse_ready_url, pick_highest_version, DshError,
};

#[test]
fn parses_node_dir_version() {
    assert_eq!(parse_node_version("node-v22.11.0"), Some((22, 11, 0)));
    assert_eq!(parse_node_version("node-v18.0.0"), Some((18, 0, 0)));
    assert_eq!(parse_node_version("nodejs"), None);
    assert_eq!(parse_node_version("other-v1.2.3"), None);
}

#[test]
fn picks_highest_version() {
    let vs = [(18, 0, 0), (22, 11, 0), (20, 5, 1)];
    assert_eq!(pick_highest_version(&vs), Some(1));
    assert_eq!(pick_highest_version(&[]), None);
    // the first of equal versions wins
    assert_eq!(pick_highest_version(&[(20, 5, 1), (20, 5, 1)]), Some(0));
}

#[test]
fn ignores_dirs_without_node_exe() {
    // only directories holding node.exe are offered; the highest of those wins
    let vs = [(20, 5, 1)];
    assert_eq!(pick_highest_version(&vs), Some(0));
}

#[test]
fn rejects_non_node_override() {
    assert!(!is_node_exe_path("C:\\Windows\\System32\\cmd.exe"));
    assert!(is_node_exe_path("C:\\node\\NODE.EXE"));
}

#[test]
fn invalid_node_override_is_an_error_not_a_silent_fallback() {
    let on_path = Some(r"C:\Program Files\nodejs\node.exe".to_string());
    // a configured node.exe that is no file: an error, though a node was found on PATH
    match choose_node(Some(r"C:\definitely\not\here\node.exe"), false, on_path.clone()) {
        Err(DshError::InvalidNodePath(m)) => assert!(m.contains("不存在"), "{m}"),
        other => panic!("expected InvalidNodePath, got {other:?}"),
    }
    // a configured path that is not node.exe: an error too
    match choose_node(Some(r"C:\Windows\System32\cmd.exe"), true, on_path.clone()) {
        Err(DshError::InvalidNodePath(m)) => assert!(m.contains("node.exe"), "{m}"),
        other => panic!("expected InvalidNodePath, got {other:?}"),
    }
    // blank means unset: the search result is used, never an invalid-path error
    assert_eq!(choose_node(Some("   "), false, on_path.clone()), Ok(r"C:\Program Files\nodejs\node.exe".to_string()));
    assert_eq!(choose_node(Some("   "), false, None), Err(DshError::NodeNotFound));
    // an existing configured node.exe is used, trimmed
    assert_eq!(choose_node(Some(" C:\\n\\node.exe "), true, on_path), Ok("C:\\n\\node.exe".to_string()));
    match node_missing_error(r"C:\definitely\not\here\node.exe") {
        DshError::InvalidNodePath(m) => assert!(m.contains("不存在"), "{m}"),
        other => panic!("expected InvalidNodePath, got {other:?}"),
    }
    match check_node_override(Some(r"C:\Windows\System32\cmd.exe")) {
        Err(DshError::InvalidNodePath(m)) => assert!(m.contains("node.exe"), "{m}"),
        other => panic!("expected InvalidNodePath, got {other:?}"),
    }
    assert_eq!(check_node_override(Some("   ")), Ok(None));
    assert_eq!(check_node_override(None), Ok(None));
    assert_eq!(
        check_node_override(Some("  C:\\n\\node.exe ")),
        Ok(Some("C:\\n\\node.exe".to_string()))
    );
}

#[test]
fn detects_lines_that_look_like_ready_lines() {
    assert!(looks_like_ready_line("dsh web: http://127.0.0.1:1/"));
    assert!(looks_like_ready_line("listening on 127.0.0.1:3080"));
    assert!(looks_like_ready_line("url with token=abc"));
    assert!(!looks_like_ready_line("some random log line"));
    let ok = "dsh web: http://127.0.0.1:3080/?token=x";
    assert!(parse_ready_url(ok).is_some());
    assert!(looks_like_ready_line(ok));
}

#[test]
fn loopback_detection() {
    assert!(is_loopback_url("http://127.0.0.1:3080/?token=x"));
    assert!(is_loopback_url("http://localhost:3080/?token=x"));
    assert!(!is_loopback_url("http://192.168.1.5:3080/?token=x"));
    assert!(!is_loopback_url("http://evil.example:3080/?token=x"));
}

#[test]
fn parses_ready_url_from_dsh_stdout() {
    let plain = "dsh web: http://127.0.0.1:3080/?token=abc123";
    assert_eq!(parse_ready_url(plain).as_deref(), Some("http://127.0.0.1:3080/?token=abc123"));
    let with_lan =
        "dsh web: http://127.0.0.1:3080/?token=abc123 (LAN: http://192.168.1.5:3080/?token=abc123)";
    assert_eq!(parse_ready_url(with_lan).as_deref(), Some("http://127.0.0.1:3080/?token=abc123"));
    assert_eq!(
        parse_ready_url("dsh web: http://127.0.0.1:65535/?token=a-b_c.d").as_deref(),
        Some("http://127.0.0.1:65535/?token=a-b_c.d")
    );
}

#[test]
fn ignores_non_ready_lines() {
    for line in [
        "",
        "some random log",
        "dsh web: starting",
        "dsh web: (no url here)",
        "http://127.0.0.1:3080/?token=x",
        "dsh web: opening the default browser; pass --no-open to disable",
    ] {
        assert_eq!(parse_ready_url(line), None, "no address in {line:?}");
    }
}

#[test]
fn detects_browser_open_notice() {
    assert!(is_browser_open_notice("dsh web: opening the default browser; pass --no-open to disable"));
    assert!(!is_browser_open_notice("dsh web: http://127.0.0.1:3080/?token=x"));
}

#[test]
fn bin_js_paths() {
    assert!(bin_js_under("C:\\nodejs").ends_with("bin.js"));
    let c = bin_js_candidates(Some("C:\\nodejs"), Some("C:\\Users\\u\\AppData\\Roaming"));
    assert!(!c.is_empty());
    assert!(c.iter().all(|p| p.ends_with("bin.js")));
}

#[test]
fn dsh_error_messages() {
    assert!(DshError::NodeNotFound.message().contains("node.exe"));
    assert!(DshError::BinJsNotFound.message().contains("bin.js"));
    assert!(DshError::InvalidNodePath("X".into()).message().contains("X"));
}
