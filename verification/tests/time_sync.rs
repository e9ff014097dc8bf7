use bili_ticker_buy::json::{Json, JsonNumber};
use bili_ticker_buy::time_sync::{
    build_time_sync_result, get_local_time, is_http_time_source, ntp_address, ntp_millis,
    parse_data_now_to_millis, parse_epoch_millis, parse_millis_fraction, pause_after_attempt,
    server_time_from_response, time_sample, time_sync_inputs_ok, TimeSampling, TimeSyncError, TimeSyncSample,
    MIN_SUCCESSFUL_TIME_SYNC_SAMPLES, TIME_SYNC_ATTEMPTS, TIME_SYNC_WARMUP_ATTEMPTS,
};

/// The library's JSON value for a `serde_json` value.
fn json_of(v: &serde_json::Value) -> Json {
    match v {
        serde_json::Value::Null => Json::Null,
        serde_json::Value::Bool(b) => Json::Bool(*b),
        serde_json::Value::Number(n) => {
            if let Some(u) = n.as_u64() {
                Json::Number(JsonNumber::PosInt(u))
            } else if let Some(i) = n.as_i64() {
                Json::Number(JsonNumber::NegInt(i))
            } else {
                Json::Number(JsonNumber::Float(n.to_string()))
            }
        }
        serde_json::Value::String(s) => Json::Str(s.clone()),
        serde_json::Value::Array(items) => Json::Array(items.iter().map(json_of).collect()),
        serde_json::Value::Object(m) => {
            Json::Object(m.iter().map(|(k, v)| (k.clone(), json_of(v))).collect())
        }
    }
}

fn parse(text: &str) -> Json {
    json_of(&serde_json::from_str::<serde_json::Value>(text).unwrap())
}

fn sample(offset: i64, server: i64, local_before: i64, local_after: i64, round_trip: i64) -> TimeSyncSample {
    TimeSyncSample { offset, server, local_before, local_after, round_trip }
}

#[test]
fn time_sync_discards_first_attempt_as_warmup() {
    assert_eq!(TIME_SYNC_ATTEMPTS, 3);
    assert_eq!(TIME_SYNC_WARMUP_ATTEMPTS, 1);
    assert_eq!(
        TIME_SYNC_ATTEMPTS - TIME_SYNC_WARMUP_ATTEMPTS,
        MIN_SUCCESSFUL_TIME_SYNC_SAMPLES
    );
}

#[test]
fn parses_fractional_seconds_as_millis() {
    let value = parse("1690000000.123");

    assert_eq!(parse_data_now_to_millis(&value), Some(1_690_000_000_123));
}

#[test]
fn parses_integer_seconds_as_millis() {
    assert_eq!(
        parse_data_now_to_millis(&parse("1690000000")),
        Some(1_690_000_000_000)
    );
}

#[test]
fn keeps_integer_millis() {
    assert_eq!(
        parse_data_now_to_millis(&parse("1690000000123")),
        Some(1_690_000_000_123)
    );
}

#[test]
fn parses_generic_seconds_and_millis() {
    assert_eq!(parse_epoch_millis(&parse("1690000000")), Some(1_690_000_000_000));
    assert_eq!(
        parse_epoch_millis(&parse("\"1690000000123\"")),
        Some(1_690_000_000_123)
    );
}

#[test]
fn time_sync_result_prefers_low_latency_consistent_sample() {
    let result = build_time_sync_result(
        vec![
            sample(100, 1_100, 900, 1_000, 100),
            sample(103, 1_103, 900, 1_020, 120),
            sample(210, 1_210, 900, 950, 50),
        ],
        0,
        2_000,
    )
    .unwrap();

    assert_eq!(result.diff, 100);
    assert_eq!(result.spread, 110);
    assert!(result.quality.trustworthy);
    assert_eq!(result.quality.sample_count, 3);
    assert_eq!(result.quality.failed_sample_count, 0);
}

#[test]
fn time_sync_result_allows_failed_samples_when_successes_are_enough() {
    let result = build_time_sync_result(
        vec![sample(100, 1_100, 900, 1_000, 100), sample(105, 1_105, 900, 1_010, 110)],
        1,
        2_000,
    )
    .unwrap();

    assert_eq!(result.quality.sample_count, 2);
    assert_eq!(result.quality.failed_sample_count, 1);
    assert!(result.quality.trustworthy);
}

#[test]
fn time_sync_result_orders_samples_by_score_and_reports_them() {
    let result = build_time_sync_result(
        vec![
            sample(100, 1_100, 900, 1_000, 100),
            sample(103, 1_103, 900, 1_020, 120),
            sample(210, 1_210, 900, 950, 50),
        ],
        2,
        2_000,
    )
    .unwrap();

    // median 103: scores 103, 120, 157
    let offsets: Vec<i64> = result.samples.iter().map(|s| s.offset).collect();
    assert_eq!(offsets, vec![100, 103, 210]);
    assert_eq!(result.server, 2_100);
    assert_eq!(result.local, 2_000);
    assert_eq!(result.round_trip, 100);
    assert_eq!(result.quality.label, "good");
    assert_eq!(result.quality.best_round_trip, 100);
    assert_eq!(result.quality.failed_sample_count, 2);
}

#[test]
fn time_sync_result_with_one_sample_is_refused() {
    let result = build_time_sync_result(vec![sample(100, 1_100, 900, 1_000, 100)], 2, 2_000);
    match result {
        Err(TimeSyncError::TooFewSamples { succeeded, attempted }) => {
            assert_eq!(succeeded, 1);
            assert_eq!(attempted, 3);
        }
        Ok(_) => panic!("one sample must not be enough"),
    }
}

#[test]
fn time_sync_quality_labels() {
    let ok = build_time_sync_result(
        vec![sample(100, 0, 0, 0, 2_000), sample(500, 0, 0, 0, 2_500)],
        0,
        0,
    )
    .unwrap();
    assert!(!ok.quality.trustworthy);
    assert_eq!(ok.quality.label, "ok");
    assert_eq!(ok.spread, 400);

    let poor = build_time_sync_result(
        vec![sample(0, 0, 0, 0, 10), sample(900, 0, 0, 0, 10)],
        0,
        0,
    )
    .unwrap();
    assert_eq!(poor.quality.label, "poor");
}

#[test]
fn time_sync_inputs_range_check() {
    assert!(time_sync_inputs_ok(&vec![sample(1, 0, 0, 0, 5), sample(2, 0, 0, 0, 5)], 1_000));
    assert!(!time_sync_inputs_ok(&vec![sample(i64::MAX, 0, 0, 0, 5)], 1));
    assert!(!time_sync_inputs_ok(
        &vec![sample(i64::MAX, 0, 0, 0, 0), sample(-1, 0, 0, 0, 0)],
        0
    ));
}

#[test]
fn fraction_digits_become_millis() {
    let f = |s: &str| parse_millis_fraction(&s.chars().collect());
    assert_eq!(f("1"), Some(100));
    assert_eq!(f("12"), Some(120));
    assert_eq!(f("123"), Some(123));
    assert_eq!(f("123456"), Some(123));
    assert_eq!(f(""), None);
    assert_eq!(f("1a"), None);
}

#[test]
fn data_now_text_forms() {
    assert_eq!(parse_data_now_to_millis(&parse("\" 1690000000.5 \"")), Some(1_690_000_000_500));
    assert_eq!(parse_data_now_to_millis(&parse("\"abc.5\"")), None);
    assert_eq!(parse_data_now_to_millis(&parse("\"12.\"")), None);
    assert_eq!(parse_data_now_to_millis(&parse("null")), None);
    assert_eq!(parse_data_now_to_millis(&parse("true")), None);
    assert_eq!(parse_epoch_millis(&parse("\"-5\"")), Some(-5_000));
    assert_eq!(parse_epoch_millis(&parse("\"x\"")), None);
    assert_eq!(parse_epoch_millis(&parse("10000000000000000")), Some(10_000_000_000_000_000));
    assert_eq!(parse_epoch_millis(&parse("99999999999999")), Some(99_999_999_999_999));
}

#[test]
fn server_time_fields_in_order() {
    assert_eq!(
        server_time_from_response(&parse(r#"{"data":{"now":1690000000,"t":"5"},"serverTime":7}"#)),
        Some(1_690_000_000_000)
    );
    assert_eq!(
        server_time_from_response(&parse(r#"{"data":{"t":"1690000000123"}}"#)),
        Some(1_690_000_000_123)
    );
    assert_eq!(
        server_time_from_response(&parse(r#"{"serverTime":1690000000123}"#)),
        Some(1_690_000_000_123)
    );
    assert_eq!(
        server_time_from_response(&parse(r#"{"server_time":"x","time":1690000000}"#)),
        Some(1_690_000_000_000)
    );
    assert_eq!(
        server_time_from_response(&parse(r#"{"timestamp":"1690000000"}"#)),
        Some(1_690_000_000_000)
    );
    assert_eq!(server_time_from_response(&parse(r#"{"other":1}"#)), None);
}

#[test]
fn ntp_timestamp_to_millis() {
    assert_eq!(ntp_millis(3, 0), 3_000);
    assert_eq!(ntp_millis(3, 0x8000_0000), 3_500);
    assert_eq!(ntp_millis(0, u32::MAX), 999);
    assert_eq!(ntp_millis(u32::MAX, 0), u32::MAX as u64 * 1000);
}

#[test]
fn ntp_address_gets_default_port() {
    assert_eq!(ntp_address("ntp.aliyun.com"), "ntp.aliyun.com:123");
    assert_eq!(ntp_address("1.2.3.4:1234"), "1.2.3.4:1234");
}

#[test]
fn time_sources_by_scheme() {
    assert!(is_http_time_source("https://api.m.taobao.com"));
    assert!(is_http_time_source("http"));
    assert!(!is_http_time_source("ntp.aliyun.com"));
    assert!(!is_http_time_source("htt"));
}

#[test]
fn warmup_attempt_yields_no_sample() {
    assert_eq!(time_sample(0, 1_000, 1_100, 5_000), None);
    let s = time_sample(1, 1_000, 1_101, 5_000).unwrap();
    assert_eq!(s.round_trip, 101);
    assert_eq!(s.offset, 5_000 - 1_050);
    assert_eq!(s.server, 5_000);
    assert_eq!(s.local_before, 1_000);
    assert_eq!(s.local_after, 1_101);
    // a backwards local clock: round trip -3, midpoint 1000 + (-1)
    let b = time_sample(2, 1_000, 997, 2_000).unwrap();
    assert_eq!(b.round_trip, -3);
    assert_eq!(b.offset, 1_001);
    let sat = time_sample(1, i64::MIN, i64::MAX, 0).unwrap();
    assert_eq!(sat.round_trip, i64::MAX);
}

#[test]
fn pauses_between_attempts_only() {
    assert!(pause_after_attempt(0));
    assert!(pause_after_attempt(1));
    assert!(!pause_after_attempt(2));
}

#[test]
fn local_clock_is_after_2020() {
    assert!(get_local_time() > 1_577_836_800_000);
}

#[test]
fn too_few_samples_message() {
    let e = TimeSyncError::TooFewSamples { succeeded: 1, attempted: 3 };
    assert_eq!(e.message(), "Too few time samples collected: 1/3 succeeded");
}

#[test]
fn a_sampling_round() {
    let mut s = TimeSampling::new();
    assert!(!s.done());
    s.record(Some((1_000, 1_100, 5_000)));
    assert!(s.samples.is_empty());
    s.record(None);
    assert_eq!(s.failed, 1);
    s.record(Some((1_000, 1_100, 5_000)));
    assert_eq!(s.samples.len(), 1);
    assert!(s.done());
    match s.finish(2_000) {
        Err(e) => assert_eq!(e.message(), "Too few time samples collected: 1/2 succeeded"),
        Ok(_) => panic!("one sample is too few"),
    }
    let mut ok = TimeSampling::new();
    ok.record(None);
    ok.record(Some((1_000, 1_100, 5_000)));
    ok.record(Some((1_000, 1_110, 5_010)));
    let r = ok.finish(2_000).unwrap();
    assert_eq!(r.quality.failed_sample_count, 1);
    assert_eq!(r.diff, 3_950);
}

#[test]
fn samples_of_equal_score_keep_their_order() {
    let samples = vec![
        sample(100, 1, 0, 20, 20),
        sample(100, 2, 0, 10, 10),
        sample(100, 3, 0, 20, 20),
        sample(100, 4, 0, 10, 10),
    ];
    let result = build_time_sync_result(samples, 0, 1_000).unwrap();
    let order: Vec<i64> = result.samples.iter().map(|s| s.server).collect();
    assert_eq!(order, vec![2, 4, 1, 3]);
}
