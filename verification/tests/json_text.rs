use bili_ticker_buy::json::{Json, JsonNumber};
use bili_ticker_buy::text::{
    concat_str, i64_to_chars, join_strings, parse_i64_chars, parse_u64_chars, split_chars,
    trim_chars, u64_to_chars,
};

fn chars(s: &str) -> Vec<char> {
    s.chars().collect()
}

fn text(v: &[char]) -> String {
    v.iter().collect()
}

#[test]
fn reading_a_member_after_setting_it() {
    let mut j = Json::Object(vec![("a".to_string(), Json::Bool(false))]);
    j.set("a", Json::Bool(true));
    j.set("b", Json::Number(JsonNumber::PosInt(2)));
    assert_eq!(j.get("a").and_then(|v| v.as_bool()), Some(true));
    assert_eq!(j.get("b").and_then(|v| v.as_u64()), Some(2));
    assert_eq!(j.member_i64("b"), Some(2));
    assert!(j.contains_key("a"));
    assert!(!j.contains_key("c"));
    j.set_default("a", Json::Null);
    assert_eq!(j.get("a").and_then(|v| v.as_bool()), Some(true));
    let mut not_object = Json::Null;
    not_object.set("a", Json::Null);
    assert!(not_object.get("a").is_none());
}

#[test]
fn json_numbers() {
    assert_eq!(Json::Number(JsonNumber::PosInt(u64::MAX)).as_i64(), None);
    assert_eq!(Json::Number(JsonNumber::NegInt(-3)).as_i64(), Some(-3));
    assert_eq!(Json::Number(JsonNumber::NegInt(-3)).as_u64(), None);
    assert_eq!(Json::from_i64(-4).as_i64(), Some(-4));
    assert_eq!(Json::from_i64(4).as_u64(), Some(4));
    assert_eq!(Json::from_str("s").as_str(), Some("s"));
    assert_eq!(Json::Str("s".to_string()).member_str_or_empty("x"), "");
}

#[test]
fn trimming_and_splitting() {
    assert_eq!(text(&trim_chars(&chars(" \t a b \u{3000}"))), "a b");
    assert_eq!(text(&trim_chars(&chars("   "))), "");
    let parts: Vec<String> = split_chars(&chars("a;;b"), ';').iter().map(|p| text(p)).collect();
    assert_eq!(parts, vec!["a", "", "b"]);
    let parts: Vec<String> = split_chars(&chars(""), ';').iter().map(|p| text(p)).collect();
    assert_eq!(parts, vec![""]);
}

#[test]
fn decimal_numbers() {
    assert_eq!(parse_i64_chars(&chars("-9223372036854775808")), Some(i64::MIN));
    assert_eq!(parse_i64_chars(&chars("9223372036854775808")), None);
    assert_eq!(parse_i64_chars(&chars("+12")), Some(12));
    assert_eq!(parse_i64_chars(&chars("-")), None);
    assert_eq!(parse_i64_chars(&chars("1 ")), None);
    assert_eq!(parse_u64_chars(&chars("18446744073709551615")), Some(u64::MAX));
    assert_eq!(parse_u64_chars(&chars("-1")), None);
    assert_eq!(text(&u64_to_chars(0)), "0");
    assert_eq!(text(&u64_to_chars(1_234)), "1234");
    assert_eq!(text(&i64_to_chars(i64::MIN)), "-9223372036854775808");
}

#[test]
fn joining_and_concatenating() {
    assert_eq!(concat_str("ab", "cd"), "abcd");
    assert_eq!(join_strings(&vec!["a".to_string(), "b".to_string(), "c".to_string()], ", "), "a, b, c");
}
