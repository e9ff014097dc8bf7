use bili_ticker_buy::json::{Json, JsonNumber};
use bili_ticker_buy::order::{
    add_hot_fields, apply_buyers, apply_price_change, changed_price, click_coordinate_from,
    cookie_parts, create_payload, device_id, new_device_id, order_history_item, order_id_of,
    proxy_address, stay_time_from, token_payload, with_prepare_token, TicketInfo,
};

fn json_of(v: &serde_json::Value) -> Json {
    match v {
        serde_json::Value::Null => Json::Null,
        serde_json::Value::Bool(b) => Json::Bool(*b),
        serde_json::Value::Number(n) => {
            if let Some(u) = n.as_u64() {
                Json::Number(JsonNumber::PosInt(u))
            } else if let Some(i) = n.as_i64() {
                Json::Number(JsonNumber::NegInt(i))
            } else {
                Json::Number(JsonNumber::Float(n.to_string()))
            }
        }
        serde_json::Value::String(s) => Json::Str(s.clone()),
        serde_json::Value::Array(items) => Json::Array(items.iter().map(json_of).collect()),
        serde_json::Value::Object(m) => {
            Json::Object(m.iter().map(|(k, v)| (k.clone(), json_of(v))).collect())
        }
    }
}

fn to_serde(j: &Json) -> serde_json::Value {
    match j {
        Json::Null => serde_json::Value::Null,
        Json::Bool(b) => serde_json::Value::Bool(*b),
        Json::Number(JsonNumber::PosInt(u)) => serde_json::Value::from(*u),
        Json::Number(JsonNumber::NegInt(i)) => serde_json::Value::from(*i),
        Json::Number(JsonNumber::Float(t)) => serde_json::from_str(t).unwrap(),
        Json::Str(s) => serde_json::Value::String(s.clone()),
        Json::Array(items) => serde_json::Value::Array(items.iter().map(to_serde).collect()),
        Json::Object(m) => serde_json::Value::Object(
            m.iter().map(|(k, v)| (k.clone(), to_serde(v))).collect(),
        ),
    }
}

fn parse(text: &str) -> Json {
    json_of(&serde_json::from_str::<serde_json::Value>(text).unwrap())
}

fn value(text: &str) -> serde_json::Value {
    serde_json::from_str(text).unwrap()
}

fn ticket() -> TicketInfo {
    TicketInfo {
        project_id: "85939".to_string(),
        project_name: None,
        screen_id: "1".to_string(),
        sku_id: "2".to_string(),
        count: 1,
        buyer_info: parse(r#"[{"name":"A"}]"#),
        deliver_info: parse("{}"),
        cookies: vec!["a=1; b=2".to_string()],
        is_hot_project: Some(true),
        pay_money: None,
        contact_name: None,
        contact_tel: None,
    }
}

#[test]
fn buyers_fill_missing_contacts() {
    let buyers = vec![parse(r#"{"name":"Li","tel":"","mobile":"13800000000"}"#), parse(r#"{"name":"Wu"}"#)];
    let info = apply_buyers(ticket(), Some(buyers));
    assert_eq!(to_serde(&info.buyer_info), value(r#"[{"name":"Li","tel":"","mobile":"13800000000"},{"name":"Wu"}]"#));
    assert_eq!(info.contact_name, Some("Li".to_string()));
    // `tel` is a string, though empty: it is the one taken, and it is dropped
    assert_eq!(info.contact_tel, None);

    let info = apply_buyers(ticket(), Some(vec![parse(r#"{"mobile":"139****0000","phone":"1"}"#)]));
    assert_eq!(info.contact_name, None);
    assert_eq!(info.contact_tel, None);

    let info = apply_buyers(ticket(), Some(vec![parse(r#"{"phone":"12345"}"#)]));
    assert_eq!(info.contact_tel, Some("12345".to_string()));

    let mut kept = ticket();
    kept.contact_name = Some("Me".to_string());
    kept.contact_tel = Some("100".to_string());
    let info = apply_buyers(kept, Some(vec![parse(r#"{"name":"Li","tel":"200"}"#)]));
    assert_eq!(info.contact_name, Some("Me".to_string()));
    assert_eq!(info.contact_tel, Some("100".to_string()));
}

#[test]
fn no_buyers_leave_ticket_unchanged() {
    let info = apply_buyers(ticket(), Some(vec![]));
    assert_eq!(to_serde(&info.buyer_info), value(r#"[{"name":"A"}]"#));
    let info = apply_buyers(ticket(), None);
    assert_eq!(info.contact_name, None);
}

#[test]
fn cookie_jar_parts() {
    assert_eq!(
        cookie_parts(&vec!["a=1; b=2".to_string(), " c=3 ;".to_string()]),
        vec!["a=1", "b=2", "c=3", ""]
    );
    assert_eq!(cookie_parts(&vec![]), Vec::<String>::new());
}

#[test]
fn proxies_are_trimmed() {
    assert_eq!(proxy_address(&Some(" http://p:1 ".to_string())), Some("http://p:1".to_string()));
    assert_eq!(proxy_address(&Some("  ".to_string())), None);
    assert_eq!(proxy_address(&None), None);
}

#[test]
fn device_ids_are_md5_hex() {
    // md5("task42") in lowercase hex
    assert_eq!(device_id("task", 42), "6affdef85e3d7f35b0a79a69f8bc4e66");
    let id = device_id("task", 42);
    assert_eq!(id.len(), 32);
    assert!(id.chars().all(|c| c.is_ascii_hexdigit() && !c.is_ascii_uppercase()));
    assert_eq!(device_id("", 0), "cfcd208495d565ef66e7dff9f98764da");
    assert_ne!(device_id("task", 1), device_id("task", 2));
    assert_eq!(new_device_id("t").len(), 32);
}

#[test]
fn random_page_figures() {
    assert_eq!(stay_time_from(0), 2_000);
    assert_eq!(stay_time_from(8_001), 2_001);
    assert_eq!(click_coordinate_from(0), 400);
    assert_eq!(click_coordinate_from(500), 900);
    assert_eq!(click_coordinate_from(501), 400);
}

#[test]
fn order_ids_from_replies() {
    assert_eq!(order_id_of(&parse(r#"{"data":{"orderId":"123"}}"#)), "123");
    assert_eq!(order_id_of(&parse(r#"{"data":{"orderId":456}}"#)), "456");
    assert_eq!(order_id_of(&parse(r#"{"data":{"orderId":-7}}"#)), "-7");
    assert_eq!(order_id_of(&parse(r#"{"data":{}}"#)), "");
    assert_eq!(order_id_of(&parse(r#"{"data":{"orderId":1.5}}"#)), "");
}

#[test]
fn price_changes() {
    assert_eq!(changed_price(&parse(r#"{"data":{"pay_money":19900}}"#)), Some(19_900));
    assert_eq!(changed_price(&parse(r#"{"data":{"pay_money":"1"}}"#)), None);
    let mut info = ticket();
    let mut payload = parse(r#"{"a":1}"#);
    apply_price_change(&mut info, &mut payload, (1u64 << 32) + 5);
    assert_eq!(info.pay_money, Some(5));
    assert_eq!(to_serde(&payload), value(&format!(r#"{{"a":1,"pay_money":{}}}"#, (1u64 << 32) + 5)));
}

#[test]
fn history_entries() {
    let mut info = ticket();
    let item = order_history_item(&info, "9".to_string(), "2026-06-19 12:00:00".to_string(), "u".to_string());
    assert_eq!(item.project_name, "85939");
    assert_eq!(item.price, 0);
    info.project_name = Some("Live".to_string());
    info.pay_money = Some(38_000);
    let item = order_history_item(&info, "9".to_string(), "t".to_string(), "".to_string());
    assert_eq!(item.project_name, "Live");
    assert_eq!(item.price, 38_000);
    assert_eq!(item.order_id, "9");
}

#[test]
fn prepare_body() {
    let mut payload = token_payload(&ticket());
    assert_eq!(
        to_serde(&payload),
        value(
            r#"{"count":1,"screen_id":"1","order_type":1,"project_id":"85939","sku_id":"2","buyer_info":[{"name":"A"}],"ignoreRequestLimit":true,"ticket_agent":"","token":"","newRisk":true,"requestSource":"neul-next"}"#
        )
    );
    with_prepare_token(&mut payload, "ct");
    assert_eq!(to_serde(&payload)["token"], value(r#""ct""#));
}

#[test]
fn create_body() {
    let mut info = ticket();
    info.pay_money = Some(100);
    info.contact_name = Some("Li".to_string());
    info.contact_tel = Some("138****0000".to_string());
    let mut payload = create_payload(&info, "[{}]", "{}", "tok", 1_700_000_000_000, "dev");
    assert_eq!(
        to_serde(&payload),
        value(
            r#"{"project_id":"85939","screen_id":"1","sku_id":"2","count":1,"order_type":1,"buyer_info":"[{}]","deliver_info":"{}","token":"tok","again":1,"timestamp":1700000000000,"deviceId":"dev","requestSource":"neul-next","newRisk":true,"pay_money":100,"contact_name":"Li","buyer":"Li"}"#
        )
    );
    add_hot_fields(&mut payload, "c", "p", 401, 402, 5, 6);
    let v = to_serde(&payload);
    assert_eq!(v["ctoken"], value(r#""c""#));
    assert_eq!(v["ptoken"], value(r#""p""#));
    assert_eq!(
        v["orderCreateUrl"],
        value(r#""https://show.bilibili.com/api/ticket/order/createV2""#)
    );
    assert_eq!(v["clickPosition"], value(r#"{"x":401,"y":402,"origin":5,"now":6}"#));

    info.contact_tel = Some("13800000000".to_string());
    let v = to_serde(&create_payload(&info, "", "", "", 0, ""));
    assert_eq!(v["contact_tel"], value(r#""13800000000""#));
    assert_eq!(v["tel"], value(r#""13800000000""#));
}
