use bili_ticker_buy::json::{Json, JsonNumber};
use bili_ticker_buy::project::{
    add_linked_specs, apply_express_fee, can_add_linked_specs, can_apply_express_fee,
    can_ensure_screen_list, check_new_project_response, ensure_screen_list, items_id,
    linked_goods_ids, normalize_project_data, ProjectError,
};

fn json_of(v: &serde_json::Value) -> Json {
    match v {
        serde_json::Value::Null => Json::Null,
        serde_json::Value::Bool(b) => Json::Bool(*b),
        serde_json::Value::Number(n) => {
            if let Some(u) = n.as_u64() {
                Json::Number(JsonNumber::PosInt(u))
            } else if let Some(i) = n.as_i64() {
                Json::Number(JsonNumber::NegInt(i))
            } else {
                Json::Number(JsonNumber::Float(n.to_string()))
            }
        }
        serde_json::Value::String(s) => Json::Str(s.clone()),
        serde_json::Value::Array(items) => Json::Array(items.iter().map(json_of).collect()),
        serde_json::Value::Object(m) => {
            Json::Object(m.iter().map(|(k, v)| (k.clone(), json_of(v))).collect())
        }
    }
}

fn to_serde(j: &Json) -> serde_json::Value {
    match j {
        Json::Null => serde_json::Value::Null,
        Json::Bool(b) => serde_json::Value::Bool(*b),
        Json::Number(JsonNumber::PosInt(u)) => serde_json::Value::from(*u),
        Json::Number(JsonNumber::NegInt(i)) => serde_json::Value::from(*i),
        Json::Number(JsonNumber::Float(t)) => serde_json::from_str(t).unwrap(),
        Json::Str(s) => serde_json::Value::String(s.clone()),
        Json::Array(items) => serde_json::Value::Array(items.iter().map(to_serde).collect()),
        Json::Object(m) => serde_json::Value::Object(
            m.iter().map(|(k, v)| (k.clone(), to_serde(v))).collect(),
        ),
    }
}

fn parse(text: &str) -> Json {
    json_of(&serde_json::from_str::<serde_json::Value>(text).unwrap())
}

fn value(text: &str) -> serde_json::Value {
    serde_json::from_str(text).unwrap()
}

#[test]
fn normalizes_new_style_project() {
    let mut res = parse(
        r#"{"code":0,"data":{"projectId":123,"projectName":"Live","hot_project":"1","screenList":[{"express_fee":"10","start_time":"200"},{"start_time":100}],"endTime":999}}"#,
    );
    normalize_project_data(&mut res, "85939");
    let v = to_serde(&res);
    let d = &v["data"];
    assert_eq!(d["id"], value("123"));
    assert_eq!(d["project_id"], value("123"));
    assert_eq!(d["name"], value(r#""Live""#));
    assert_eq!(d["hotProject"], value("true"));
    assert_eq!(d["hot_project"], value("true"));
    assert_eq!(d["screen_list"], d["screenList"]);
    assert_eq!(d["has_eticket"], value("false"));
    assert_eq!(d["start_time"], value("100"));
    assert_eq!(d["end_time"], value("999"));
}

#[test]
fn normalize_keeps_given_fields_and_uses_requested_id() {
    let mut res = parse(r#"{"data":{"name":"N","screen_list":[],"has_eticket":true,"start_time":1}}"#);
    normalize_project_data(&mut res, "77");
    let v = to_serde(&res);
    let d = &v["data"];
    assert_eq!(d["id"], value(r#""77""#));
    assert_eq!(d["name"], value(r#""N""#));
    assert_eq!(d["hotProject"], value("false"));
    assert_eq!(d["has_eticket"], value("true"));
    assert_eq!(d["start_time"], value("1"));
    assert!(d.get("end_time").is_none());

    let mut not_object = parse(r#"{"data":[1]}"#);
    normalize_project_data(&mut not_object, "1");
    assert_eq!(to_serde(&not_object), value(r#"{"data":[1]}"#));
}

#[test]
fn express_fee_raises_ticket_prices() {
    let mut res = parse(
        r#"{"data":{"has_eticket":false,"screen_list":[{"express_fee":10,"ticket_list":[{"price":100},{"price":"x"}]},{"express_fee":-5,"ticket_list":[{"price":50}]},{"express_fee":"7","ticket_list":[{"price":1}]}]}}"#,
    );
    assert!(can_apply_express_fee(&res));
    apply_express_fee(&mut res);
    let v = to_serde(&res);
    let s = &v["data"]["screen_list"];
    assert_eq!(s[0]["ticket_list"], value(r#"[{"price":110},{"price":"x"}]"#));
    assert_eq!(s[1]["ticket_list"], value(r#"[{"price":50}]"#));
    assert_eq!(s[2]["ticket_list"], value(r#"[{"price":1}]"#));

    let mut eticket = parse(r#"{"data":{"has_eticket":true,"screen_list":[{"express_fee":10,"ticket_list":[{"price":100}]}]}}"#);
    apply_express_fee(&mut eticket);
    assert_eq!(to_serde(&eticket)["data"]["screen_list"][0]["ticket_list"], value(r#"[{"price":100}]"#));
}

#[test]
fn express_fee_refuses_overflow() {
    let res = parse(&format!(
        r#"{{"data":{{"screen_list":[{{"express_fee":1,"ticket_list":[{{"price":{}}}]}}]}}}}"#,
        i64::MAX
    ));
    assert!(!can_apply_express_fee(&res));
}

#[test]
fn linked_goods_join_the_screens() {
    let link = parse(r#"{"data":{"list":[{"id":"L1"},{"id":42},{"name":"no id"}]}}"#);
    assert_eq!(linked_goods_ids(&link), Some(vec!["L1".to_string(), "42".to_string()]));
    assert_eq!(linked_goods_ids(&parse(r#"{"data":{"list":[]}}"#)), None);

    let mut res = parse(r#"{"data":{"name":"x"}}"#);
    assert!(can_ensure_screen_list(&res));
    ensure_screen_list(&mut res);
    assert_eq!(to_serde(&res)["data"]["screen_list"], value("[]"));

    let detail = parse(r#"{"data":{"item_id":9,"specs_list":[{"name":"s1"},{"name":"s2"}]}}"#);
    assert!(can_add_linked_specs(&res, &detail));
    add_linked_specs(&mut res, &detail, "L1");
    assert_eq!(
        to_serde(&res)["data"]["screen_list"],
        value(r#"[{"name":"s1","project_id":9,"link_id":"L1"},{"name":"s2","project_id":9,"link_id":"L1"}]"#)
    );
}

#[test]
fn new_project_detail_responses() {
    assert_eq!(
        check_new_project_response(parse(r#"{"success":false}"#), "1").err(),
        Some(ProjectError::SuccessFalse)
    );
    assert_eq!(
        check_new_project_response(parse(r#"{"errno":5,"code":0}"#), "1").err(),
        Some(ProjectError::Code(5))
    );
    assert_eq!(
        check_new_project_response(parse(r#"{"code":0,"data":{"screen_list":[]}}"#), "1").err(),
        Some(ProjectError::NoScreenList)
    );
    let ok = check_new_project_response(parse(r#"{"data":{"screenList":[{"id":1}]}}"#), "1").unwrap();
    let v = to_serde(&ok);
    assert_eq!(v["code"], value("0"));
    assert_eq!(v["errno"], value("0"));
    assert_eq!(v["data"]["screen_list"], value(r#"[{"id":1}]"#));
}

#[test]
fn items_ids() {
    assert_eq!(to_serde(&items_id("85939")), value("85939"));
    assert_eq!(to_serde(&items_id("abc")), value(r#""abc""#));
}

#[test]
fn normalizing_twice_changes_nothing_more() {
    for text in [
        r#"{"code":0,"data":{"projectId":123,"projectName":"Live","hot_project":"1","screenList":[{"express_fee":"10","start_time":"200"},{"start_time":100}],"endTime":999}}"#,
        r#"{"code":0,"data":{"name":"Old","screen_list":"none","screenList":[{"start_time":5}]}}"#,
        r#"{"code":0,"data":{}}"#,
        r#"{"code":1,"data":[1,2]}"#,
    ] {
        let mut once = parse(text);
        normalize_project_data(&mut once, "7");
        let mut twice = to_serde(&once);
        let mut again = json_of(&twice);
        normalize_project_data(&mut again, "99");
        twice = to_serde(&again);
        assert_eq!(twice, to_serde(&once));
    }
}
