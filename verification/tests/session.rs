use bili_ticker_buy::json::{Json, JsonNumber};
use bili_ticker_buy::session::{
    account_from_user_info, buyer_list_url, cookie_injection_script, cookie_export_document, cookie_header, cookie_pair,
    cookies_from_export, find_account, login_poll_step, login_session_text, qrcode_from_reply,
    remove_account, save_account, Account, AccountError, CookieImportError, LoginError, LoginPoll,
};

fn json_of(v: &serde_json::Value) -> Json {
    match v {
        serde_json::Value::Null => Json::Null,
        serde_json::Value::Bool(b) => Json::Bool(*b),
        serde_json::Value::Number(n) => {
            if let Some(u) = n.as_u64() {
                Json::Number(JsonNumber::PosInt(u))
            } else if let Some(i) = n.as_i64() {
                Json::Number(JsonNumber::NegInt(i))
            } else {
                Json::Number(JsonNumber::Float(n.to_string()))
            }
        }
        serde_json::Value::String(s) => Json::Str(s.clone()),
        serde_json::Value::Array(items) => Json::Array(items.iter().map(json_of).collect()),
        serde_json::Value::Object(m) => {
            Json::Object(m.iter().map(|(k, v)| (k.clone(), json_of(v))).collect())
        }
    }
}

fn parse(text: &str) -> Json {
    json_of(&serde_json::from_str::<serde_json::Value>(text).unwrap())
}

fn to_serde(j: &Json) -> serde_json::Value {
    match j {
        Json::Null => serde_json::Value::Null,
        Json::Bool(b) => serde_json::Value::Bool(*b),
        Json::Number(JsonNumber::PosInt(u)) => serde_json::Value::from(*u),
        Json::Number(JsonNumber::NegInt(i)) => serde_json::Value::from(*i),
        Json::Number(JsonNumber::Float(t)) => serde_json::from_str(t).unwrap(),
        Json::Str(s) => serde_json::Value::String(s.clone()),
        Json::Array(items) => serde_json::Value::Array(items.iter().map(to_serde).collect()),
        Json::Object(m) => serde_json::Value::Object(
            m.iter().map(|(k, v)| (k.clone(), to_serde(v))).collect(),
        ),
    }
}

fn account(uid: &str, name: &str) -> Account {
    Account {
        uid: uid.to_string(),
        name: name.to_string(),
        face: String::new(),
        cookies: vec![],
        level: 0,
        is_vip: false,
        coins: JsonNumber::PosInt(0),
    }
}

#[test]
fn qrcode_reply_gives_url_and_key() {
    let ok = parse(r#"{"code":0,"data":{"url":"https://x/y","qrcode_key":"k1"}}"#);
    assert_eq!(
        qrcode_from_reply(&ok).unwrap(),
        ("https://x/y".to_string(), "k1".to_string())
    );
    let refused = parse(r#"{"code":-1,"data":{}}"#);
    assert_eq!(qrcode_from_reply(&refused).unwrap_err(), LoginError::QrCodeUnavailable);
    let no_code = parse(r#"{"data":{}}"#);
    assert_eq!(qrcode_from_reply(&no_code).unwrap_err(), LoginError::QrCodeUnavailable);
}

#[test]
fn login_poll_states() {
    assert_eq!(login_poll_step(&parse(r#"{"data":{"code":0}}"#)), LoginPoll::Confirmed);
    assert_eq!(login_poll_step(&parse(r#"{"data":{"code":86101}}"#)), LoginPoll::Pending);
    assert_eq!(login_poll_step(&parse(r#"{"data":{"code":86090}}"#)), LoginPoll::Pending);
    assert_eq!(login_poll_step(&parse(r#"{"data":{"code":86038}}"#)), LoginPoll::Failed);
    assert_eq!(login_poll_step(&parse(r#"{"code":-1}"#)), LoginPoll::Pending);
}

#[test]
fn login_session_is_json_list() {
    let text = login_session_text(&vec!["SESSDATA=a; Path=/".to_string(), "b=\"q\"".to_string()])
        .unwrap();
    assert_eq!(text, r#"["SESSDATA=a; Path=/","b=\"q\""]"#);
}

#[test]
fn login_session_text_escapes_like_json() {
    let lines = vec![
        "a\\b".to_string(),
        "tab\tnl\ncr\r".to_string(),
        "\u{1}\u{1f}\u{8}\u{c}".to_string(),
        "\u{7f}\u{e9}/".to_string(),
    ];
    let text = login_session_text(&lines).unwrap();
    assert_eq!(text, "[\"a\\\\b\",\"tab\\tnl\\ncr\\r\",\"\\u0001\\u001f\\b\\f\",\"\u{7f}\u{e9}/\"]");
    assert_eq!(login_session_text(&Vec::new()).unwrap(), "[]");
}

#[test]
fn account_from_user_info_reads_fields() {
    let res = parse(
        r#"{"code":0,"data":{"mid":7,"uname":"neko","face":"f.png","level_info":{"current_level":6},"vipStatus":1,"money":12.5}}"#,
    );
    let a = account_from_user_info(&res, "7".to_string(), vec!["c=1".to_string()]).unwrap();
    assert_eq!(a.uid, "7");
    assert_eq!(a.name, "neko");
    assert_eq!(a.face, "f.png");
    assert_eq!(a.cookies, vec!["c=1".to_string()]);
    assert_eq!(a.level, 6);
    assert!(a.is_vip);
    match a.coins {
        JsonNumber::Float(t) => assert_eq!(t, "12.5"),
        _ => panic!("coins kept as a float"),
    }
    let sparse = account_from_user_info(&parse(r#"{"code":0}"#), "null".to_string(), vec![]).unwrap();
    assert_eq!(sparse.name, "");
    assert_eq!(sparse.level, 0);
    assert!(!sparse.is_vip);
    match sparse.coins {
        JsonNumber::PosInt(0) => {}
        _ => panic!("missing coins count as zero"),
    }
    assert_eq!(
        account_from_user_info(&parse(r#"{"code":-101}"#), "1".to_string(), vec![]).err(),
        Some(AccountError::InvalidCookies)
    );
}

#[test]
fn saving_an_account_replaces_same_uid() {
    let list = vec![account("1", "a"), account("2", "b"), account("1", "c")];
    let saved = save_account(&list, account("1", "d"));
    let names: Vec<&str> = saved.iter().map(|a| a.name.as_str()).collect();
    assert_eq!(names, vec!["b", "d"]);
    let removed = remove_account(&saved, "2");
    assert_eq!(removed.len(), 1);
    assert_eq!(removed[0].name, "d");
    assert_eq!(find_account(&list, "2"), Some(1));
    assert_eq!(find_account(&list, "1"), Some(0));
    assert_eq!(find_account(&list, "9"), None);
}

#[test]
fn cookie_pairs_from_lines() {
    assert_eq!(
        cookie_pair(" SESSDATA = abc ; Path=/; HttpOnly"),
        Some(("SESSDATA".to_string(), "abc".to_string()))
    );
    assert_eq!(cookie_pair("a=b=c"), Some(("a".to_string(), "b=c".to_string())));
    assert_eq!(cookie_pair("novalue; x=1"), None);
    assert_eq!(cookie_pair(""), None);
}

#[test]
fn export_document_shape() {
    let doc = cookie_export_document(&vec!["a=1; Path=/".to_string(), "bad".to_string(), "b=2".to_string()]);
    let expected: serde_json::Value = serde_json::from_str(
        r#"{"_default":{"1":{"key":"cookie","value":[{"name":"a","value":"1"},{"name":"b","value":"2"}]}}}"#,
    )
    .unwrap();
    assert_eq!(to_serde(&doc), expected);
}

#[test]
fn export_then_import_restores_cookies() {
    let lines = vec!["SESSDATA=abc".to_string(), "bili_jct=x%2Cy".to_string()];
    let doc = cookie_export_document(&lines);
    assert_eq!(cookies_from_export(&doc).unwrap(), lines);
}

#[test]
fn importing_cookie_files() {
    let doc = parse(
        r#"{"_default":{"1":{"value":[{"name":"a","value":"1"},{"name":"","value":"2"},{"name":"c"},{"value":"4"}]}}}"#,
    );
    assert_eq!(cookies_from_export(&doc).unwrap(), vec!["a=1".to_string(), "c=".to_string()]);
    assert_eq!(
        cookies_from_export(&parse(r#"{"_default":{"1":{"value":[]}}}"#)).unwrap_err(),
        CookieImportError::NoCookies
    );
    assert_eq!(
        cookies_from_export(&parse(r#"{"_default":{"1":{"value":{}}}}"#)).unwrap_err(),
        CookieImportError::MissingCookieList
    );
    assert_eq!(
        cookies_from_export(&parse(r#"{}"#)).unwrap_err(),
        CookieImportError::MissingCookieList
    );
}

#[test]
fn request_headers_and_urls() {
    assert_eq!(cookie_header(&vec!["a=1".to_string(), "b=2".to_string()]), "a=1; b=2");
    assert_eq!(cookie_header(&vec!["a=1".to_string()]), "a=1");
    assert_eq!(cookie_header(&vec![]), "");
    assert_eq!(
        buyer_list_url("85939"),
        "https://show.bilibili.com/api/ticket/buyer/list?is_default&projectId=85939"
    );
}

#[test]
fn cookie_injection_statements() {
    let script = cookie_injection_script(&vec![
        "a=1; Path=/".to_string(),
        " ; x".to_string(),
        "b='x'".to_string(),
    ]);
    assert_eq!(
        script,
        "document.cookie = 'a=1 ; domain=.bilibili.com; path=/';\n\ndocument.cookie = 'b=\\'x\\' ; domain=.bilibili.com; path=/';"
    );
    assert_eq!(cookie_injection_script(&vec![]), "");
}
