//! What a purchase task sends: the ticket it buys, the buyers it names, the
//! bodies of the prepare and create requests, and what it keeps of a reply.
use vstd::prelude::*;
use crate::json::{Json, JsonNumber, JsonV, NumberV, items_view, members_view};
use crate::storage::HistoryItem;
use crate::text::{chars_of, contains_char, decimal_spec, signed_decimal_spec, i64_to_chars, split_chars, split_spec, char_vecs_view, lemma_split_nonempty, string_from_chars, trim_chars, trim_spec, u64_to_chars};

verus! {

broadcast use {vstd::string::group_string_axioms, vstd::std_specs::vec::group_vec_axioms};

/// The ticket a task buys and the people it buys it for.
pub struct TicketInfo {
    pub project_id: String,
    pub project_name: Option<String>,
    pub screen_id: String,
    pub sku_id: String,
    pub count: u32,
    pub buyer_info: Json,
    pub deliver_info: Json,
    pub cookies: Vec<String>,
    pub is_hot_project: Option<bool>,
    pub pay_money: Option<u32>,
    pub contact_name: Option<String>,
    pub contact_tel: Option<String>,
}

pub open spec fn opt_view(o: Option<String>) -> Option<Seq<char>> {
    match o {
        Some(s) => Some(s@),
        None => None,
    }
}

/// A contact field counts as missing when absent or empty.
pub open spec fn missing_text(o: Option<String>) -> bool {
    match o {
        Some(s) => s@.len() == 0,
        None => true,
    }
}

/// The phone number of a buyer entry: `tel`, else `mobile`, else `phone`
/// (the first that is a string), kept only when non-empty and not masked with `*`.
pub open spec fn buyer_phone(b: JsonV) -> Option<Seq<char>> {
    let t = if b.at("tel"@).as_str() is Some {
        b.at("tel"@).as_str()
    } else if b.at("mobile"@).as_str() is Some {
        b.at("mobile"@).as_str()
    } else {
        b.at("phone"@).as_str()
    };
    match t {
        Some(x) => if x.len() > 0 && !x.contains('*') {
            Some(x)
        } else {
            None
        },
        None => None,
    }
}

fn is_missing(o: &Option<String>) -> (b: bool)
    ensures
        b == missing_text(*o),
{
    match o {
        Some(s) => s.as_str().is_empty(),
        None => true,
    }
}

fn phone_of(b: &Json) -> (r: Option<String>)
    ensures
        opt_view(r) == buyer_phone(b@),
{
    let t = match b.member_str("tel") {
        Some(t) => Some(t),
        None => match b.member_str("mobile") {
            Some(m) => Some(m),
            None => b.member_str("phone"),
        },
    };
    match t {
        Some(x) => {
            if !x.is_empty() && !contains_char(x, '*') {
                Some(x.to_string())
            } else {
                None
            }
        },
        None => None,
    }
}

/// Buyers picked in the UI replace the ticket's buyer list. A missing contact
/// name is then taken from the first buyer's `name` (absent when that is not a
/// string), and a missing contact phone from the first buyer's phone (see
/// `buyer_phone`). Without buyers, or with an empty list, the ticket stays as it is.
pub fn apply_buyers(info: TicketInfo, buyers: Option<Vec<Json>>) -> (r: TicketInfo)
    ensures
        (buyers is None || buyers->0@.len() == 0) ==> r == info,
        buyers matches Some(b) ==> b@.len() > 0 ==> {
            &&& r.buyer_info@ == JsonV::Array(items_view(b@))
            &&& opt_view(r.contact_name) == if missing_text(info.contact_name) {
                b@[0]@.at("name"@).as_str()
            } else {
                opt_view(info.contact_name)
            }
            &&& opt_view(r.contact_tel) == if missing_text(info.contact_tel) {
                buyer_phone(b@[0]@)
            } else {
                opt_view(info.contact_tel)
            }
            &&& r.project_id == info.project_id
            &&& r.project_name == info.project_name
            &&& r.screen_id == info.screen_id
            &&& r.sku_id == info.sku_id
            &&& r.count == info.count
            &&& r.deliver_info == info.deliver_info
            &&& r.cookies == info.cookies
            &&& r.is_hot_project == info.is_hot_project
            &&& r.pay_money == info.pay_money
        },
{
    let mut info = info;
    match buyers {
        Some(b) => {
            if b.len() > 0 {
                if is_missing(&info.contact_name) {
                    info.contact_name = match b[0].member_str("name") {
                        Some(n) => Some(n.to_string()),
                        None => None,
                    };
                }
                if is_missing(&info.contact_tel) {
                    info.contact_tel = phone_of(&b[0]);
                }
                info.buyer_info = Json::Array(b);
            }
            info
        },
        None => info,
    }
}

// ---------------------------------------------------------------------------
// Connection settings of a task.
// ---------------------------------------------------------------------------

/// Every `;`-separated part of every cookie line, trimmed, in order: the
/// cookies a task's cookie jar is filled with.
pub open spec fn cookie_parts_spec(lines: Seq<Seq<char>>) -> Seq<Seq<char>>
    decreases lines.len(),
{
    if lines.len() == 0 {
        seq![]
    } else {
        cookie_parts_spec(lines.drop_last()) + split_spec(lines.last(), ';').map_values(
            |p: Seq<char>| trim_spec(p),
        )
    }
}

pub fn cookie_parts(cookies: &Vec<String>) -> (r: Vec<String>)
    ensures
        r.deep_view() == cookie_parts_spec(cookies.deep_view()),
{
    let ghost lines = cookies.deep_view();
    let mut out: Vec<String> = Vec::new();
    let mut i: usize = 0;
    while i < cookies.len()
        invariant
            i <= cookies.len(),
            lines == cookies.deep_view(),
            lines.len() == cookies.len(),
            out.deep_view() == cookie_parts_spec(lines.take(i as int)),
        decreases cookies.len() - i,
    {
        proof {
            assert(lines.take(i + 1).drop_last() =~= lines.take(i as int));
            assert(lines.take(i + 1).last() == cookies@[i as int]@);
        }
        let chars = chars_of(cookies[i].as_str());
        let pieces = split_chars(&chars, ';');
        let ghost base = out.deep_view();
        let ghost ps = split_spec(chars@, ';');
        let mut j: usize = 0;
        while j < pieces.len()
            invariant
                j <= pieces.len(),
                char_vecs_view(pieces@) == ps,
                ps.len() == pieces.len(),
                out.deep_view() == base + ps.take(j as int).map_values(|p: Seq<char>| trim_spec(p)),
            decreases pieces.len() - j,
        {
            assert(ps[j as int] == pieces@[j as int]@);
            let t = trim_chars(&pieces[j]);
            let ghost prev = out.deep_view();
            out.push(string_from_chars(&t));
            proof {
                assert(out.deep_view() =~= prev.push(trim_spec(ps[j as int])));
                assert(ps.take(j + 1).map_values(|p: Seq<char>| trim_spec(p)) =~= ps.take(
                    j as int,
                ).map_values(|p: Seq<char>| trim_spec(p)).push(trim_spec(ps[j as int])));
            }
            j = j + 1;
        }
        assert(ps.take(pieces.len() as int) =~= ps);
        i = i + 1;
    }
    assert(lines.take(cookies.len() as int) =~= lines);
    out
}

/// The proxy a task goes through: the configured address, trimmed, unless that is empty.
pub open spec fn proxy_spec(proxy: Option<Seq<char>>) -> Option<Seq<char>> {
    match proxy {
        Some(p) => if trim_spec(p).len() > 0 {
            Some(trim_spec(p))
        } else {
            None
        },
        None => None,
    }
}

pub fn proxy_address(proxy: &Option<String>) -> (r: Option<String>)
    ensures
        opt_view(r) == proxy_spec(opt_view(*proxy)),
{
    match proxy {
        Some(p) => {
            let t = trim_chars(&chars_of(p.as_str()));
            if t.len() > 0 {
                Some(string_from_chars(&t))
            } else {
                None
            }
        },
        None => None,
    }
}

/// The lowercase hexadecimal MD5 digest of the UTF-8 bytes of a text.
pub uninterp spec fn md5_hex(text: Seq<char>) -> Seq<char>;

/// Calls `md5::compute` on the UTF-8 bytes of `text` and prints the digest
/// with `{:x}`. Its contract claims that the result is the digest's lowercase
/// hex text, a function of `text` alone.
#[verifier::external_body]
fn md5_lower_hex(text: &str) -> (r: String)
    ensures
        r@ == md5_hex(text@),
{
    format!("{:x}", md5::compute(text.as_bytes()))
}

/// The device id of a task: the MD5 digest of the task id followed by `nonce` in decimal.
pub fn device_id(task_id: &str, nonce: u64) -> (r: String)
    ensures
        r@ == md5_hex(task_id@ + decimal_spec(nonce as nat)),
{
    let mut text = chars_of(task_id);
    let digits = u64_to_chars(nonce);
    let ghost base = text@;
    let mut i: usize = 0;
    while i < digits.len()
        invariant
            i <= digits.len(),
            text@ == base + digits@.take(i as int),
        decreases digits.len() - i,
    {
        text.push(digits[i]);
        i = i + 1;
        assert(text@ =~= base + digits@.take(i as int));
    }
    assert(digits@.take(digits.len() as int) =~= digits@);
    let s = string_from_chars(&text);
    md5_lower_hex(s.as_str())
}

/// A device id for a new task, from a random nonce.
pub fn new_device_id(task_id: &str) -> (r: String)
    ensures
        exists|n: u64| r@ == md5_hex(task_id@ + decimal_spec(n as nat)),
{
    let n = crate::buy::random_u64();
    device_id(task_id, n)
}

/// How long the ticket page counts as viewed before the first order, in
/// milliseconds: 2000 plus `random % 8000`.
pub fn stay_time_from(random: u64) -> (r: u64)
    ensures
        r == random % 8000 + 2000,
        2000 <= r < 10_000,
{
    random % 8000 + 2000
}

/// One coordinate of the reported click: 400 plus `random % 501`.
pub fn click_coordinate_from(random: u64) -> (r: u64)
    ensures
        r == random % 501 + 400,
        400 <= r <= 900,
{
    random % 501 + 400
}

// ---------------------------------------------------------------------------
// What a task keeps of a reply.
// ---------------------------------------------------------------------------

/// The order id of a create reply: `data.orderId` as a string, or an integer
/// id in decimal; empty when there is neither.
pub open spec fn order_id_spec(res: JsonV) -> Seq<char> {
    let v = res.at("data"@).at("orderId"@);
    match v.as_str() {
        Some(s) => s,
        None => match v.as_i64() {
            Some(n) => signed_decimal_spec(n as int),
            None => seq![],
        },
    }
}

pub fn order_id_of(res: &Json) -> (r: String)
    ensures
        r@ == order_id_spec(res@),
{
    let v = match res.get("data") {
        Some(d) => d.get("orderId"),
        None => None,
    };
    match v {
        Some(v) => match v.as_str() {
            Some(s) => s.to_string(),
            None => match v.as_i64() {
                Some(n) => string_from_chars(&i64_to_chars(n)),
                None => String::new(),
            },
        },
        None => String::new(),
    }
}

/// The new price a "price changed" reply carries in `data.pay_money`.
pub fn changed_price(res: &Json) -> (r: Option<u64>)
    ensures
        r == res@.at("data"@).at("pay_money"@).as_u64(),
{
    match res.get("data") {
        Some(d) => match d.get("pay_money") {
            Some(p) => p.as_u64(),
            None => None,
        },
        None => None,
    }
}

/// The history entry of a placed order: the project's name (its id when it has
/// none) and the ticket's price (0 when unknown).
pub fn order_history_item(info: &TicketInfo, order_id: String, time: String, pay_url: String) -> (r:
    HistoryItem)
    ensures
        r.order_id == order_id,
        r.project_name@ == match info.project_name {
            Some(n) => n@,
            None => info.project_id@,
        },
        r.price == match info.pay_money {
            Some(p) => p,
            None => 0,
        },
        r.time == time,
        r.pay_url == pay_url,
{
    let project_name = match &info.project_name {
        Some(n) => n.clone(),
        None => info.project_id.clone(),
    };
    let price = match info.pay_money {
        Some(p) => p,
        None => 0,
    };
    HistoryItem { order_id, project_name, price, time, pay_url }
}

// ---------------------------------------------------------------------------
// Request bodies.
// ---------------------------------------------------------------------------

pub open spec fn uint_json(n: u64) -> JsonV {
    JsonV::Number(NumberV::PosInt(n))
}

/// The body of a prepare request; `token` is filled in before each request.
pub open spec fn token_payload_spec(info: TicketInfo) -> JsonV {
    JsonV::Object(
        seq![
            ("count"@, uint_json(info.count as u64)),
            ("screen_id"@, JsonV::Str(info.screen_id@)),
            ("order_type"@, uint_json(1)),
            ("project_id"@, JsonV::Str(info.project_id@)),
            ("sku_id"@, JsonV::Str(info.sku_id@)),
            ("buyer_info"@, info.buyer_info@),
            ("ignoreRequestLimit"@, JsonV::Bool(true)),
            ("ticket_agent"@, JsonV::Str(""@)),
            ("token"@, JsonV::Str(""@)),
            ("newRisk"@, JsonV::Bool(true)),
            ("requestSource"@, JsonV::Str("neul-next"@)),
        ],
    )
}

pub fn token_payload(info: &TicketInfo) -> (r: Json)
    ensures
        r@ == token_payload_spec(*info),
{
    let mut m: Vec<(String, Json)> = Vec::new();
    crate::json::push_member(&mut m, "count", Json::Number(JsonNumber::PosInt(info.count as u64)));
    crate::json::push_member(&mut m, "screen_id", Json::Str(info.screen_id.clone()));
    crate::json::push_member(&mut m, "order_type", Json::Number(JsonNumber::PosInt(1)));
    crate::json::push_member(&mut m, "project_id", Json::Str(info.project_id.clone()));
    crate::json::push_member(&mut m, "sku_id", Json::Str(info.sku_id.clone()));
    crate::json::push_member(&mut m, "buyer_info", info.buyer_info.deep_clone());
    crate::json::push_member(&mut m, "ignoreRequestLimit", Json::Bool(true));
    crate::json::push_member(&mut m, "ticket_agent", Json::Str("".to_string()));
    crate::json::push_member(&mut m, "token", Json::Str("".to_string()));
    crate::json::push_member(&mut m, "newRisk", Json::Bool(true));
    crate::json::push_member(&mut m, "requestSource", Json::Str("neul-next".to_string()));
    proof {
        reveal_with_fuel(members_view, 1);
        assert(members_view(m@) =~= token_payload_spec(*info)->Object_0);
    }
    Json::Object(m)
}

/// The prepare body with the token of this round: a fresh ctoken for hot
/// projects, empty otherwise.
pub fn with_prepare_token(payload: &mut Json, token: &str)
    ensures
        final(payload)@ == old(payload)@.set("token"@, JsonV::Str(token@)),
{
    payload.set("token", Json::Str(token.to_string()));
}

/// The fields every create request carries. `buyer_info_text` and
/// `deliver_info_text` are the ticket's buyer and delivery data as JSON text.
pub open spec fn create_base_spec(
    info: TicketInfo,
    buyer_info_text: Seq<char>,
    deliver_info_text: Seq<char>,
    token: Seq<char>,
    timestamp_ms: u64,
    device_id: Seq<char>,
) -> JsonV {
    JsonV::Object(
        seq![
            ("project_id"@, JsonV::Str(info.project_id@)),
            ("screen_id"@, JsonV::Str(info.screen_id@)),
            ("sku_id"@, JsonV::Str(info.sku_id@)),
            ("count"@, uint_json(info.count as u64)),
            ("order_type"@, uint_json(1)),
            ("buyer_info"@, JsonV::Str(buyer_info_text)),
            ("deliver_info"@, JsonV::Str(deliver_info_text)),
            ("token"@, JsonV::Str(token)),
            ("again"@, uint_json(1)),
            ("timestamp"@, uint_json(timestamp_ms)),
            ("deviceId"@, JsonV::Str(device_id)),
            ("requestSource"@, JsonV::Str("neul-next"@)),
            ("newRisk"@, JsonV::Bool(true)),
        ],
    )
}

pub open spec fn with_price_spec(j: JsonV, pay_money: Option<u32>) -> JsonV {
    match pay_money {
        Some(p) => j.set("pay_money"@, uint_json(p as u64)),
        None => j,
    }
}

/// The contact name goes out as `contact_name` and as `buyer`.
pub open spec fn with_contact_name_spec(j: JsonV, name: Option<String>) -> JsonV {
    match name {
        Some(n) => j.set("contact_name"@, JsonV::Str(n@)).set("buyer"@, JsonV::Str(n@)),
        None => j,
    }
}

/// The contact phone goes out as `contact_tel` and as `tel`, unless masked with `*`.
pub open spec fn with_contact_tel_spec(j: JsonV, tel: Option<String>) -> JsonV {
    match tel {
        Some(t) => if !t@.contains('*') {
            j.set("contact_tel"@, JsonV::Str(t@)).set("tel"@, JsonV::Str(t@))
        } else {
            j
        },
        None => j,
    }
}

/// The body of a create request: the base fields, then the price, the contact
/// name and the contact phone where the ticket has them.
pub open spec fn create_payload_spec(
    info: TicketInfo,
    buyer_info_text: Seq<char>,
    deliver_info_text: Seq<char>,
    token: Seq<char>,
    timestamp_ms: u64,
    device_id: Seq<char>,
) -> JsonV {
    with_contact_tel_spec(
        with_contact_name_spec(
            with_price_spec(
                create_base_spec(
                    info,
                    buyer_info_text,
                    deliver_info_text,
                    token,
                    timestamp_ms,
                    device_id,
                ),
                info.pay_money,
            ),
            info.contact_name,
        ),
        info.contact_tel,
    )
}

pub fn create_payload(
    info: &TicketInfo,
    buyer_info_text: &str,
    deliver_info_text: &str,
    token: &str,
    timestamp_ms: u64,
    device_id: &str,
) -> (r: Json)
    ensures
        r@ == create_payload_spec(
            *info,
            buyer_info_text@,
            deliver_info_text@,
            token@,
            timestamp_ms,
            device_id@,
        ),
{
    let mut m: Vec<(String, Json)> = Vec::new();
    crate::json::push_member(&mut m, "project_id", Json::Str(info.project_id.clone()));
    crate::json::push_member(&mut m, "screen_id", Json::Str(info.screen_id.clone()));
    crate::json::push_member(&mut m, "sku_id", Json::Str(info.sku_id.clone()));
    crate::json::push_member(&mut m, "count", Json::Number(JsonNumber::PosInt(info.count as u64)));
    crate::json::push_member(&mut m, "order_type", Json::Number(JsonNumber::PosInt(1)));
    crate::json::push_member(&mut m, "buyer_info", Json::Str(buyer_info_text.to_string()));
    crate::json::push_member(&mut m, "deliver_info", Json::Str(deliver_info_text.to_string()));
    crate::json::push_member(&mut m, "token", Json::Str(token.to_string()));
    crate::json::push_member(&mut m, "again", Json::Number(JsonNumber::PosInt(1)));
    crate::json::push_member(&mut m, "timestamp", Json::Number(JsonNumber::PosInt(timestamp_ms)));
    crate::json::push_member(&mut m, "deviceId", Json::Str(device_id.to_string()));
    crate::json::push_member(&mut m, "requestSource", Json::Str("neul-next".to_string()));
    crate::json::push_member(&mut m, "newRisk", Json::Bool(true));
    proof {
        reveal_with_fuel(members_view, 1);
        assert(members_view(m@) =~= create_base_spec(
            *info,
            buyer_info_text@,
            deliver_info_text@,
            token@,
            timestamp_ms,
            device_id@,
        )->Object_0);
    }
    let mut payload = Json::Object(m);
    match info.pay_money {
        Some(p) => payload.set("pay_money", Json::Number(JsonNumber::PosInt(p as u64))),
        None => {},
    }
    match &info.contact_name {
        Some(n) => {
            payload.set("contact_name", Json::Str(n.clone()));
            payload.set("buyer", Json::Str(n.clone()));
        },
        None => {},
    }
    match &info.contact_tel {
        Some(t) => {
            if !contains_char(t.as_str(), '*') {
                payload.set("contact_tel", Json::Str(t.clone()));
                payload.set("tel", Json::Str(t.clone()));
            }
        },
        None => {},
    }
    payload
}

/// The fields a create request of a hot project carries besides the base
/// body: fresh ctoken, the ptoken, the create URL and the click position.
pub open spec fn hot_fields_spec(
    payload: JsonV,
    ctoken: Seq<char>,
    ptoken: Seq<char>,
    x: u64,
    y: u64,
    origin_ms: u64,
    now_ms: u64,
) -> JsonV {
    payload.set("ctoken"@, JsonV::Str(ctoken)).set("ptoken"@, JsonV::Str(ptoken)).set(
        "orderCreateUrl"@,
        JsonV::Str("https://show.bilibili.com/api/ticket/order/createV2"@),
    ).set(
        "clickPosition"@,
        JsonV::Object(
            seq![
                ("x"@, uint_json(x)),
                ("y"@, uint_json(y)),
                ("origin"@, uint_json(origin_ms)),
                ("now"@, uint_json(now_ms)),
            ],
        ),
    )
}

pub fn add_hot_fields(
    payload: &mut Json,
    ctoken: &str,
    ptoken: &str,
    x: u64,
    y: u64,
    origin_ms: u64,
    now_ms: u64,
)
    ensures
        final(payload)@ == hot_fields_spec(old(payload)@, ctoken@, ptoken@, x, y, origin_ms, now_ms),
{
    payload.set("ctoken", Json::Str(ctoken.to_string()));
    payload.set("ptoken", Json::Str(ptoken.to_string()));
    payload.set(
        "orderCreateUrl",
        Json::Str("https://show.bilibili.com/api/ticket/order/createV2".to_string()),
    );
    let mut click: Vec<(String, Json)> = Vec::new();
    crate::json::push_member(&mut click, "x", Json::Number(JsonNumber::PosInt(x)));
    crate::json::push_member(&mut click, "y", Json::Number(JsonNumber::PosInt(y)));
    crate::json::push_member(&mut click, "origin", Json::Number(JsonNumber::PosInt(origin_ms)));
    crate::json::push_member(&mut click, "now", Json::Number(JsonNumber::PosInt(now_ms)));
    proof {
        reveal_with_fuel(members_view, 1);
        assert(members_view(click@) =~= seq![
            ("x"@, uint_json(x)),
            ("y"@, uint_json(y)),
            ("origin"@, uint_json(origin_ms)),
            ("now"@, uint_json(now_ms)),
        ]);
    }
    payload.set("clickPosition", Json::Object(click));
}

/// After a "price changed" reply the ticket takes the new price (truncated to
/// `u32`) and the create body carries it.
pub fn apply_price_change(info: &mut TicketInfo, payload: &mut Json, new_price: u64)
    ensures
        final(info).pay_money == Some(new_price as u32),
        final(info).project_id == old(info).project_id,
        final(info).project_name == old(info).project_name,
        final(info).screen_id == old(info).screen_id,
        final(info).sku_id == old(info).sku_id,
        final(info).count == old(info).count,
        final(info).buyer_info == old(info).buyer_info,
        final(info).deliver_info == old(info).deliver_info,
        final(info).cookies == old(info).cookies,
        final(info).is_hot_project == old(info).is_hot_project,
        final(info).contact_name == old(info).contact_name,
        final(info).contact_tel == old(info).contact_tel,
        final(payload)@ == old(payload)@.set("pay_money"@, uint_json(new_price)),
{
    info.pay_money = Some(new_price as u32);
    payload.set("pay_money", Json::Number(JsonNumber::PosInt(new_price)));
}

} // verus!
