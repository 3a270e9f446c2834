use dsh_launcher::log::redact_secrets;
use std::borrow::Cow;

#[test]
fn redacts_token() {
    assert_eq!(redact_secrets("http://127.0.0.1:3080/?token=abc123"), "http://127.0.0.1:3080/?token=***");
    assert_eq!(redact_secrets("a=1&token=secret%20x&b=2"), "a=1&token=***&b=2");
}

#[test]
fn redacts_other_credential_keys() {
    assert_eq!(redact_secrets("pin=123456"), "pin=***");
    assert_eq!(redact_secrets("api_key=sk-abc"), "api_key=***");
    assert_eq!(redact_secrets("cookie: session=xyz"), "cookie: ***");
    assert_eq!(redact_secrets("password = hunter2"), "password = ***");
    assert_eq!(redact_secrets("\"client_secret\": \"s3cr3t\""), "\"client_secret\": \"***\"");
    assert_eq!(redact_secrets("spin=1"), "spin=1");
    assert_eq!(redact_secrets("oauth_mode=x"), "oauth_mode=x");
}

#[test]
fn redacts_authorization_headers() {
    assert_eq!(redact_secrets("Authorization: Bearer abc.def.ghi"), "Authorization: Bearer ***");
    assert_eq!(redact_secrets("authorization=Basic dXNlcjpwYXNz"), "authorization=Basic ***");
    assert_eq!(redact_secrets("Bearer abc123"), "Bearer ***");
}

#[test]
fn redaction_keeps_utf8_boundaries() {
    let s = "错误：token=abc 中文后缀";
    let out = redact_secrets(s);
    assert!(out.contains("token=***"), "{out}");
    assert!(out.contains("中文后缀"), "{out}");
}

#[test]
fn leaves_plain_text_untouched() {
    assert!(matches!(redact_secrets("plain line"), Cow::Borrowed(_)));
    assert_eq!(redact_secrets("plain line"), "plain line");
}

#[test]
fn redaction_is_idempotent_on_examples() {
    for s in ["token=abc", "Authorization: Bearer x", "pin=1 api_key=2", "plain"] {
        let once = redact_secrets(s).into_owned();
        let twice = redact_secrets(&once).into_owned();
        assert_eq!(once, twice, "{s}");
    }
}
