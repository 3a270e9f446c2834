use dsh_launcher::harness::{
    colorref, is_allowed_navigation as harness_navigation_allowed, parse_auth_state,
    parse_css_color, parse_theme_result, title_text_colorref, AuthState, HarnessError,
    AUTH_CHECK_JS,
};
use dsh_launcher::settings::{
    init_script, is_allowed_navigation, js_string_literal, parse_command, settings_init,
    init_payload, status_payload, status_script, GuideError, SettingsCommand, SettingsInit,
};
use dsh_launcher::config::{ServiceLifecycle, Settings};
use dsh_launcher::tray::{menu_items, separator_after, tray_event_from_id, TrayEvent};

#[test]
fn parses_auth_states_from_callback_text() {
    assert_eq!(parse_auth_state("\"AUTH_REQUIRED\""), AuthState::Required);
    assert_eq!(parse_auth_state("AUTH_REQUIRED"), AuthState::Required);
    assert_eq!(parse_auth_state(" \"auth_required\"\n"), AuthState::Required);
    assert_eq!(parse_auth_state("\"OK\""), AuthState::Authenticated);
    assert_eq!(parse_auth_state("OK"), AuthState::Authenticated);
    assert_eq!(parse_auth_state("\"UNKNOWN\""), AuthState::Unknown);
    assert_eq!(parse_auth_state(""), AuthState::Unknown);
    assert_eq!(parse_auth_state("null"), AuthState::Unknown);
    assert_eq!(parse_auth_state("garbage"), AuthState::Unknown);
}

#[test]
fn auth_check_js_matches_dsh_unauthorized_copy() {
    assert!(AUTH_CHECK_JS.contains("authentication required"));
    assert!(AUTH_CHECK_JS.contains("document.body"));
    assert!(AUTH_CHECK_JS.contains("AUTH_REQUIRED"));
}

#[test]
fn theme_colors_are_read_in_every_form() {
    assert_eq!(parse_theme_result("\"rgb(30, 31, 32)\""), Some((30, 31, 32)));
    assert_eq!(parse_theme_result("\"rgba(1, 2, 3, 0.5)\""), Some((1, 2, 3)));
    assert_eq!(parse_theme_result("\"\""), None);
    assert_eq!(parse_theme_result("null"), None);
    assert_eq!(parse_css_color("#ff8000"), Some((255, 128, 0)));
    assert_eq!(parse_css_color("#abc"), Some((0xaa, 0xbb, 0xcc)));
    assert_eq!(parse_css_color("#12345"), None);
    assert_eq!(parse_css_color("rgb(1, 2)"), None);
    assert_eq!(parse_css_color("rgb(256, 0, 0)"), None);
    assert_eq!(parse_css_color("rgb(1, 2, 3"), None);
    assert_eq!(parse_css_color("transparent"), None);
}

#[test]
fn titlebar_colours() {
    assert_eq!(colorref(0x11, 0x22, 0x33), 0x0033_2211);
    assert_eq!(title_text_colorref(true), 0x00FF_FFFF);
    assert_eq!(title_text_colorref(false), 0);
}

#[test]
fn harness_navigation_stays_on_loopback() {
    assert!(harness_navigation_allowed("http://127.0.0.1:3080/?token=x"));
    assert!(harness_navigation_allowed("HTTP://LOCALHOST:3080/"));
    assert!(harness_navigation_allowed("https://[::1]:3080/"));
    assert!(harness_navigation_allowed("about:blank"));
    assert!(harness_navigation_allowed(""));
    assert!(!harness_navigation_allowed("https://evil.example/"));
    assert!(!harness_navigation_allowed("http://127.0.0.1.evil.example/"));
    assert!(!harness_navigation_allowed("file:///C:/"));
}

#[test]
fn error_messages_name_the_cause() {
    assert_eq!(HarnessError::WindowCreation("x".into()).message(), "窗口创建失败：x");
    assert!(HarnessError::WebView2RuntimeMissing.message().contains("WebView2"));
    assert_eq!(GuideError::WebViewCreation("y".into()).message(), "WebView2 创建失败：y");
}

#[test]
fn parses_save_command() {
    let body = r#"{"action":"save","port":"3090","workDir":"D:\\ws","nodePath":"C:\\n\\node.exe","trayOnClose":false,"independentService":false}"#;
    assert_eq!(
        parse_command(body),
        Some(SettingsCommand::Save {
            port: "3090".into(),
            work_dir: "D:\\ws".into(),
            node_path: "C:\\n\\node.exe".into(),
            tray_on_close: Some(false),
            independent_service: Some(false),
        })
    );
}

#[test]
fn save_missing_checkboxes_means_keep_current_value() {
    match parse_command(r#"{"action":"save","port":"3080"}"#) {
        Some(SettingsCommand::Save { tray_on_close, independent_service, .. }) => {
            assert_eq!(tray_on_close, None);
            assert_eq!(independent_service, None);
        }
        other => panic!("expected Save, got {other:?}"),
    }
}

#[test]
fn parses_reset_config() {
    assert_eq!(parse_command(r#"{"action":"resetConfig"}"#), Some(SettingsCommand::ResetConfig));
}

#[test]
fn navigation_whitelist_blocks_remote_pages() {
    assert!(is_allowed_navigation("about:blank"));
    assert!(is_allowed_navigation(""));
    assert!(is_allowed_navigation("data:text/html,<p>x</p>"));
    assert!(!is_allowed_navigation("http://127.0.0.1:3080/"));
    assert!(!is_allowed_navigation("https://evil.example/"));
    assert!(!is_allowed_navigation("file:///C:/Windows/System32/"));
}

#[test]
fn parses_simple_actions() {
    assert_eq!(parse_command(r#"{"action":"start"}"#), Some(SettingsCommand::Start));
    assert_eq!(parse_command(r#"{"action":"stop"}"#), Some(SettingsCommand::Stop));
    assert_eq!(parse_command(r#"{"action":"openLogDir"}"#), Some(SettingsCommand::OpenLogDir));
    assert_eq!(parse_command(r#"{"action":"cleanArchived"}"#), Some(SettingsCommand::CleanArchived));
}

#[test]
fn rejects_unknown_or_malformed() {
    assert_eq!(parse_command(r#"{"action":"nope"}"#), None);
    assert_eq!(parse_command(r#"{}"#), None);
    assert_eq!(parse_command("not json"), None);
    assert_eq!(parse_command(""), None);
    assert_eq!(parse_command(r#"{"action":123}"#), None);
}

#[test]
fn save_command_tolerates_missing_fields() {
    let parsed = parse_command(r#"{"action":"save"}"#);
    assert!(matches!(parsed, Some(SettingsCommand::Save { .. })));
    if let Some(SettingsCommand::Save { port, .. }) = parsed {
        assert!(port.is_empty());
    }
}

#[test]
fn init_values_follow_the_settings() {
    let s = Settings { port: 3099, service_lifecycle: ServiceLifecycle::Tied, ..Default::default() };
    let init = settings_init(&s, "C:\\logs\\launcher.log".to_string());
    assert_eq!(init.port, 3099);
    assert!(!init.independent_service);
    assert!(init.tray_on_close);
    assert_eq!(init.log_path, "C:\\logs\\launcher.log");
}

#[test]
fn every_menu_item_id_is_mapped() {
    let items = menu_items();
    for (id, label) in &items {
        assert!(tray_event_from_id(id).is_some(), "menu item {id} ({label}) has no event");
    }
    assert_eq!(items.len(), 10);
}

#[test]
fn unknown_id_is_ignored() {
    assert_eq!(tray_event_from_id("nope"), None);
    assert_eq!(tray_event_from_id(""), None);
}

#[test]
fn menu_groups_and_events() {
    assert_eq!(tray_event_from_id("open_browser"), Some(TrayEvent::OpenInBrowser));
    assert_eq!(tray_event_from_id("log_dir"), Some(TrayEvent::OpenLogDir));
    assert!(separator_after("open_browser") && separator_after("stop") && separator_after("settings"));
    assert!(!separator_after("exit"));
}

#[test]
fn init_script_embeds_values() {
    let init = SettingsInit {
        port: 3099,
        work_dir: "D:\\ws".into(),
        node_path: String::new(),
        tray_on_close: false,
        independent_service: true,
        log_path: "C:\\logs\\launcher.log".into(),
    };
    let js = init_script(&init);
    assert!(js.contains("window.__INIT__"));
    assert!(js.contains("JSON.parse("));
    assert!(js.contains("3099"));
    assert!(js.contains("tray_on_close"));
    assert!(js.contains("independent_service"));
}

#[test]
fn init_script_escapes_script_breaking_paths() {
    let init = SettingsInit {
        port: 3080,
        work_dir: "D:\\a\"b</script>\n'; alert(1);//".into(),
        node_path: "C:\\x\\node.exe".into(),
        tray_on_close: true,
        independent_service: true,
        log_path: "C:\\logs\\launcher.log".into(),
    };
    let js = init_script(&init);
    assert!(!js.contains("</script>"), "{js}");
    assert!(!js.contains("alert(1)") || js.contains("\\\""), "脚本片段必须被转义：{js}");
    assert!(js.contains("\\u003c"), "尖括号应转义为 \\u003c：{js}");
}

#[test]
fn script_literals_are_double_quoted_and_angle_free() {
    assert_eq!(js_string_literal("a<b>c"), "\"a\\u003cb\\u003ec\"");
    assert_eq!(js_string_literal("plain"), "\"plain\"");
    let js = status_script("端口 <3080> 已占用", true);
    assert!(js.starts_with("(function(){try{var p=JSON.parse(\""), "{js}");
    assert!(js.ends_with(");window.__setStatus && window.__setStatus(p);}catch(e){}})();"), "{js}");
    assert!(!js.contains('<') && !js.contains('>'), "{js}");
    assert!(js.contains("\\\"error\\\":true"), "{js}");
}

#[test]
fn payloads_are_json_objects_in_member_order() {
    let init = SettingsInit {
        port: 3080,
        work_dir: "D:\\w\"s".into(),
        node_path: String::new(),
        tray_on_close: true,
        independent_service: false,
        log_path: "L\n\u{1}".into(),
    };
    assert_eq!(
        init_payload(&init),
        "{\"independent_service\":false,\"log_path\":\"L\\n\\u0001\",\"node_path\":\"\",\"port\":3080,\"tray_on_close\":true,\"work_dir\":\"D:\\\\w\\\"s\"}"
    );
    assert_eq!(status_payload("ok", false), "{\"error\":false,\"text\":\"ok\"}");
}
