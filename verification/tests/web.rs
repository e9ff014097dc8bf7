use bili_ticker_buy::util::CTokenGenerator;
use bili_ticker_buy::json::{Json, JsonNumber};
use bili_ticker_buy::web::{
    arg_opt_string, arg_string, arg_u32, arg_u64, basic_auth_matches, content_type, decode_base64,
    events_since, events_to_drop, is_events_path, scheduled_start, static_path, task_settings,
    ArgError,
};

fn obj(members: Vec<(&str, Json)>) -> Json {
    Json::Object(members.into_iter().map(|(k, v)| (k.to_string(), v)).collect())
}

fn s(text: &str) -> Json {
    Json::Str(text.to_string())
}

fn n(v: u64) -> Json {
    Json::Number(JsonNumber::PosInt(v))
}

#[test]
fn decodes_basic_auth_payload() {
    assert_eq!(decode_base64("dXNlcjpwYXNz").unwrap(), b"user:pass");
}

#[test]
fn base64_decoding_edge_cases() {
    assert_eq!(decode_base64("").unwrap(), b"");
    assert_eq!(decode_base64("YQ==").unwrap(), b"a");
    assert_eq!(decode_base64("YWI=").unwrap(), b"ab");
    assert_eq!(decode_base64("YW Jj\n").unwrap(), b"abc");
    assert_eq!(decode_base64("YWJj=ignored").unwrap(), b"abc");
    assert!(decode_base64("YW*j").is_none());
}

#[test]
fn basic_auth_checks_the_password_only() {
    assert!(basic_auth_matches("Basic dXNlcjpwYXNz", "pass"));
    assert!(!basic_auth_matches("Basic dXNlcjpwYXNz", "other"));
    assert!(!basic_auth_matches("Bearer dXNlcjpwYXNz", "pass"));
    // "nopassword" has no colon
    assert!(!basic_auth_matches("Basic bm9wYXNzd29yZA==", "nopassword"));
    // ":" alone: empty user, empty password
    assert!(basic_auth_matches("Basic Og==", ""));
    assert!(!basic_auth_matches("Basic !!!", "pass"));
}

#[test]
fn content_types_by_extension() {
    assert_eq!(content_type("css"), "text/css; charset=utf-8");
    assert_eq!(content_type("js"), "application/javascript; charset=utf-8");
    assert_eq!(content_type("html"), "text/html; charset=utf-8");
    assert_eq!(content_type("png"), "image/png");
    assert_eq!(content_type(""), "application/octet-stream");
}

#[test]
fn event_buffer_bounds() {
    assert_eq!(events_to_drop(1_000), 0);
    assert_eq!(events_to_drop(1_001), 1);
    assert_eq!(events_to_drop(5), 0);
}

#[test]
fn event_requests() {
    assert!(is_events_path("/api/events?since=3"));
    assert!(!is_events_path("/api/invoke"));
    assert_eq!(events_since("/api/events?since=42"), 42);
    assert_eq!(events_since("/api/events?since=x"), 0);
    assert_eq!(events_since("/api/events"), 0);
    assert_eq!(events_since("/api/events?a=1&since=7"), 7);
}

#[test]
fn static_files() {
    assert_eq!(static_path("/"), "index.html");
    assert_eq!(static_path("/?x=1"), "index.html");
    assert_eq!(static_path("/assets/app.js?v=2"), "assets/app.js");
    assert_eq!(static_path("//a.css"), "a.css");
    assert_eq!(static_path(""), "");
}

#[test]
fn command_arguments() {
    let args = obj(vec![("uid", s("42")), ("interval", n(300)), ("mode", n(1)), ("big", n(1 << 33))]);
    assert_eq!(arg_string(&args, "uid").unwrap(), "42");
    match arg_string(&args, "interval") {
        Err(ArgError::MissingString(k)) => assert_eq!(k, "interval"),
        _ => panic!("interval is not a string"),
    }
    assert_eq!(arg_opt_string(&args, "uid"), Some("42".to_string()));
    assert_eq!(arg_opt_string(&args, "missing"), None);
    assert_eq!(arg_u64(&args, "interval").unwrap(), 300);
    match arg_u64(&args, "uid") {
        Err(ArgError::MissingU64(k)) => assert_eq!(k, "uid"),
        _ => panic!("uid is not a number"),
    }
    assert_eq!(arg_u32(&args, "big").unwrap(), 0);
    assert!(arg_string(&Json::Null, "uid").is_err());
}

#[test]
fn task_settings_defaults() {
    let given = task_settings(&obj(vec![("interval", n(300)), ("mode", n(1)), ("totalAttempts", n(5))]));
    assert_eq!(given.interval, 300);
    assert_eq!(given.mode, 1);
    assert_eq!(given.total_attempts, 5);
    let defaults = task_settings(&obj(vec![("interval", s("fast"))]));
    assert_eq!(defaults.interval, 1_000);
    assert_eq!(defaults.mode, 0);
    assert_eq!(defaults.total_attempts, 10);
}

#[test]
fn blank_schedules_are_ignored() {
    assert_eq!(
        scheduled_start(&obj(vec![("timeStart", s("2026-06-19 12:00"))])),
        Some("2026-06-19 12:00".to_string())
    );
    assert_eq!(scheduled_start(&obj(vec![("timeStart", s("   "))])), None);
    assert_eq!(scheduled_start(&obj(vec![])), None);
}

#[test]
fn ctoken_decodes_to_its_widened_record() {
    let mut g = CTokenGenerator::new(1_700_000_000, 0, 1_234);
    let token = g.generate_ctoken(true);
    assert_eq!(token.len(), 44);
    let record = g.token_bytes();
    let mut widened = Vec::new();
    for b in record {
        widened.push(b);
        widened.push(0);
    }
    assert_eq!(decode_base64(&token), Some(widened));
}

#[test]
fn base64_round_trips_every_tail_length() {
    let texts = ["", "Zg==", "Zm8=", "Zm9v", "Zm9vYg=="];
    let plain: [&[u8]; 5] = [b"", b"f", b"fo", b"foo", b"foob"];
    for (t, p) in texts.iter().zip(plain.iter()) {
        assert_eq!(decode_base64(t), Some(p.to_vec()));
    }
}

#[test]
fn base64_whitespace_is_ignored() {
    assert_eq!(decode_base64("Zm 9v\r\nY\tg=="), Some(b"foob".to_vec()));
    assert_eq!(decode_base64("Zm9vYg=="), decode_base64(" Zm9vYg== "));
}

#[test]
fn base64_fails_only_on_bad_bytes_before_padding() {
    assert_eq!(decode_base64("Zm9v!"), None);
    assert_eq!(decode_base64("Zm!9v"), None);
    assert_eq!(decode_base64("Zm9v=!"), Some(b"foo".to_vec()));
    assert_eq!(decode_base64(" \t\r\n"), Some(Vec::new()));
    assert_eq!(decode_base64("\n Z m\t9 v \r"), Some(b"foo".to_vec()));
}
