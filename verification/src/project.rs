//! Project-detail responses: the two upstream formats are brought to one
//! shape, linked goods are merged in, and express fees are added to prices.
use vstd::prelude::*;
use crate::json::{Json, JsonV, int_json, lemma_items_view, items_view, lemma_object_set};
use crate::text::{chars_of, parse_i64_chars, parse_i64_spec, parse_u64_chars, parse_u64_spec, signed_decimal_spec, i64_to_chars, string_from_chars, str_eq};

verus! {

broadcast use vstd::string::group_string_axioms;

/// The first of `a`, `b`, `c` that is present.
pub open spec fn first_of3(a: Option<JsonV>, b: Option<JsonV>, c: Option<JsonV>) -> Option<JsonV> {
    if a is Some {
        a
    } else if b is Some {
        b
    } else {
        c
    }
}

pub open spec fn first_of2(a: Option<JsonV>, b: Option<JsonV>) -> Option<JsonV> {
    if a is Some {
        a
    } else {
        b
    }
}

/// A flag read leniently: a boolean, a non-zero integer, or the string `true` or `1`.
pub open spec fn lenient_bool(v: JsonV) -> Option<bool> {
    if v.as_bool() is Some {
        v.as_bool()
    } else if v.as_i64() is Some {
        Some(v.as_i64()->0 != 0)
    } else if v.as_str() is Some {
        Some(v.as_str()->0 == "true"@ || v.as_str()->0 == "1"@)
    } else {
        None
    }
}

/// An integer read leniently: an integer, or a string that parses as one.
pub open spec fn lenient_i64(v: JsonV) -> Option<i64> {
    if v.as_i64() is Some {
        v.as_i64()
    } else if v.as_str() is Some {
        parse_i64_spec(v.as_str()->0)
    } else {
        None
    }
}

/// The integer member `key` of `v`, read leniently.
pub open spec fn lenient_field(v: JsonV, key: Seq<char>) -> Option<i64> {
    match v.get(key) {
        Some(x) => lenient_i64(x),
        None => None,
    }
}

/// The express fee of a screen (0 when absent or unreadable).
pub open spec fn screen_fee(screen: JsonV) -> i64 {
    match lenient_field(screen, "express_fee"@) {
        Some(f) => f,
        None => 0,
    }
}

/// Some screen charges an express fee.
pub open spec fn some_fee(list: Seq<JsonV>) -> bool {
    exists|i: int| 0 <= i < list.len() && screen_fee(#[trigger] list[i]) > 0
}

/// The readable start times of the screens, in order.
pub open spec fn start_times(list: Seq<JsonV>) -> Seq<i64>
    decreases list.len(),
{
    if list.len() == 0 {
        seq![]
    } else {
        let rest = start_times(list.drop_last());
        match lenient_field(list.last(), "start_time"@) {
            Some(t) => rest.push(t),
            None => rest,
        }
    }
}

pub open spec fn seq_min(s: Seq<i64>) -> i64
    recommends
        s.len() > 0,
    decreases s.len(),
{
    if s.len() <= 1 {
        s[0]
    } else {
        let m = seq_min(s.drop_last());
        if s.last() < m {
            s.last()
        } else {
            m
        }
    }
}

pub open spec fn seq_max(s: Seq<i64>) -> i64
    recommends
        s.len() > 0,
    decreases s.len(),
{
    if s.len() <= 1 {
        s[0]
    } else {
        let m = seq_max(s.drop_last());
        if s.last() > m {
            s.last()
        } else {
            m
        }
    }
}

/// Step 1: `id` is the first of `id`, `projectId`, `itemsId` (else the requested
/// id as a string); `project_id` defaults to it.
pub open spec fn with_ids(d: JsonV, id: Seq<char>) -> JsonV {
    let pid = match first_of3(d.get("id"@), d.get("projectId"@), d.get("itemsId"@)) {
        Some(v) => v,
        None => JsonV::Str(id),
    };
    d.set("id"@, pid).set_default("project_id"@, pid)
}

/// Step 2: `name` defaults to `projectName`.
pub open spec fn with_alias(d: JsonV, key: Seq<char>, source: Seq<char>) -> JsonV {
    if !d.has(key) && d.get(source) is Some {
        d.set(key, d.get(source)->0)
    } else {
        d
    }
}

/// Step 3: `hotProject` and `hot_project` both hold the flag read from the
/// first of them present (false when absent or unreadable).
pub open spec fn with_hot(d: JsonV) -> JsonV {
    let hot = match first_of2(d.get("hotProject"@), d.get("hot_project"@)) {
        Some(v) => match lenient_bool(v) {
            Some(b) => b,
            None => false,
        },
        None => false,
    };
    d.set("hotProject"@, JsonV::Bool(hot)).set("hot_project"@, JsonV::Bool(hot))
}

/// Step 4: `screen_list` (when not an array) and `screenList` (when absent) take
/// the first of `screen_list`, `screenList` present.
pub open spec fn with_screens(d: JsonV) -> JsonV {
    let screens = first_of2(d.get("screen_list"@), d.get("screenList"@));
    let d1 = if d.at("screen_list"@).as_array() is None && screens is Some {
        d.set("screen_list"@, screens->0)
    } else {
        d
    };
    if !d1.has("screenList"@) && screens is Some {
        d1.set("screenList"@, screens->0)
    } else {
        d1
    }
}

pub open spec fn screen_list_of(d: JsonV) -> Seq<JsonV> {
    match d.at("screen_list"@).as_array() {
        Some(a) => a,
        None => seq![],
    }
}

/// Step 6: `has_eticket` defaults to "no screen charges an express fee".
pub open spec fn with_eticket(d: JsonV) -> JsonV {
    if !d.has("has_eticket"@) {
        d.set("has_eticket"@, JsonV::Bool(!some_fee(screen_list_of(d))))
    } else {
        d
    }
}

/// Step 7: `start_time` defaults to the earliest screen start; `end_time` to
/// `endTime`, else to the latest screen start.
pub open spec fn with_times(d: JsonV) -> JsonV {
    let ts = start_times(screen_list_of(d));
    let d1 = if !d.has("start_time"@) && ts.len() > 0 {
        d.set("start_time"@, int_json(seq_min(ts)))
    } else {
        d
    };
    if !d1.has("end_time"@) {
        if d1.get("endTime"@) is Some {
            d1.set("end_time"@, d1.get("endTime"@)->0)
        } else if ts.len() > 0 {
            d1.set("end_time"@, int_json(seq_max(ts)))
        } else {
            d1
        }
    } else {
        d1
    }
}

/// The project object brought to one shape (steps 1 to 7 in order).
pub open spec fn normalize_data_spec(d: JsonV, id: Seq<char>) -> JsonV {
    with_times(
        with_eticket(
            with_alias(
                with_alias(with_screens(with_hot(with_alias(with_ids(d, id), "name"@, "projectName"@))), "venue_info"@, "skuVenueInfo"@),
                "sales_dates"@,
                "salesDates"@,
            ),
        ),
    )
}

/// A response whose `data` is an object gets that object normalized; any other is left as it is.
pub open spec fn normalize_spec(res: JsonV, id: Seq<char>) -> JsonV {
    match res.get("data"@) {
        Some(d) => if d is Object {
            res.set("data"@, normalize_data_spec(d, id))
        } else {
            res
        },
        None => res,
    }
}

fn get_copy(d: &Json, key: &str) -> (r: Option<Json>)
    ensures
        match r {
            Some(v) => d@.get(key@) == Some(v@),
            None => d@.get(key@) is None,
        },
{
    match d.get(key) {
        Some(v) => Some(v.deep_clone()),
        None => None,
    }
}

fn lenient_bool_exec(v: &Json) -> (r: Option<bool>)
    ensures
        r == lenient_bool(v@),
{
    match v.as_bool() {
        Some(b) => Some(b),
        None => match v.as_i64() {
            Some(n) => Some(n != 0),
            None => match v.as_str() {
                Some(s) => Some(str_eq(s, "true") || str_eq(s, "1")),
                None => None,
            },
        },
    }
}

fn lenient_i64_exec(v: &Json) -> (r: Option<i64>)
    ensures
        r == lenient_i64(v@),
{
    match v.as_i64() {
        Some(n) => Some(n),
        None => match v.as_str() {
            Some(s) => {
                let cs = chars_of(s);
                parse_i64_chars(&cs)
            },
            None => None,
        },
    }
}

fn lenient_field_exec(v: &Json, key: &str) -> (r: Option<i64>)
    ensures
        r == lenient_field(v@, key@),
{
    match v.get(key) {
        Some(x) => lenient_i64_exec(x),
        None => None,
    }
}

fn with_ids_exec(d: &mut Json, id: &str)
    ensures
        final(d)@ == with_ids(old(d)@, id@),
{
    let pid = match get_copy(d, "id") {
        Some(v) => v,
        None => match get_copy(d, "projectId") {
            Some(v) => v,
            None => match get_copy(d, "itemsId") {
                Some(v) => v,
                None => Json::from_str(id),
            },
        },
    };
    let pid2 = pid.deep_clone();
    d.set("id", pid);
    d.set_default("project_id", pid2);
}

fn with_alias_exec(d: &mut Json, key: &str, source: &str)
    ensures
        final(d)@ == with_alias(old(d)@, key@, source@),
{
    if !d.contains_key(key) {
        match get_copy(d, source) {
            Some(v) => d.set(key, v),
            None => {},
        }
    }
}

fn with_hot_exec(d: &mut Json)
    ensures
        final(d)@ == with_hot(old(d)@),
{
    let src = match get_copy(d, "hotProject") {
        Some(v) => Some(v),
        None => get_copy(d, "hot_project"),
    };
    let hot = match &src {
        Some(v) => match lenient_bool_exec(v) {
            Some(b) => b,
            None => false,
        },
        None => false,
    };
    d.set("hotProject", Json::Bool(hot));
    d.set("hot_project", Json::Bool(hot));
}

fn is_array_at(d: &Json, key: &str) -> (b: bool)
    ensures
        b == (d@.at(key@).as_array() is Some),
{
    match d.get(key) {
        Some(Json::Array(_)) => true,
        _ => false,
    }
}

fn with_screens_exec(d: &mut Json)
    ensures
        final(d)@ == with_screens(old(d)@),
{
    let screens = match get_copy(d, "screen_list") {
        Some(v) => Some(v),
        None => get_copy(d, "screenList"),
    };
    match screens {
        Some(s) => {
            if !is_array_at(d, "screen_list") {
                let c = s.deep_clone();
                d.set("screen_list", c);
            }
            if !d.contains_key("screenList") {
                d.set("screenList", s);
            }
        },
        None => {},
    }
}

fn some_fee_exec(items: &Vec<Json>) -> (b: bool)
    ensures
        b == some_fee(items_view(items@)),
{
    proof {
        lemma_items_view(items@);
    }
    let mut i: usize = 0;
    while i < items.len()
        invariant
            i <= items.len(),
            items_view(items@).len() == items@.len(),
            forall|k: int| 0 <= k < items@.len() ==> #[trigger] items_view(items@)[k] == items@[k]@,
            forall|k: int| 0 <= k < i ==> screen_fee(#[trigger] items_view(items@)[k]) <= 0,
        decreases items.len() - i,
    {
        let fee = match lenient_field_exec(&items[i], "express_fee") {
            Some(f) => f,
            None => 0,
        };
        if fee > 0 {
            assert(screen_fee(items_view(items@)[i as int]) > 0);
            return true;
        }
        i = i + 1;
    }
    false
}

fn with_eticket_exec(d: &mut Json)
    ensures
        final(d)@ == with_eticket(old(d)@),
{
    if !d.contains_key("has_eticket") {
        let fee = match d.get("screen_list") {
            Some(Json::Array(items)) => some_fee_exec(items),
            _ => false,
        };
        proof {
            if d@.at("screen_list"@).as_array() is None {
                assert(screen_list_of(d@) =~= Seq::<JsonV>::empty());
            }
        }
        d.set("has_eticket", Json::Bool(!fee));
    }
}

/// The readable start times of `items` with their least and greatest.
fn start_times_exec(items: &Vec<Json>) -> (r: (usize, i64, i64))
    ensures
        r.0 == start_times(items_view(items@)).len(),
        r.0 > 0 ==> r.1 == seq_min(start_times(items_view(items@))),
        r.0 > 0 ==> r.2 == seq_max(start_times(items_view(items@))),
{
    proof {
        lemma_items_view(items@);
    }
    let mut count: usize = 0;
    let mut lo: i64 = 0;
    let mut hi: i64 = 0;
    let mut i: usize = 0;
    while i < items.len()
        invariant
            i <= items.len(),
            items_view(items@).len() == items@.len(),
            forall|k: int| 0 <= k < items@.len() ==> #[trigger] items_view(items@)[k] == items@[k]@,
            count == start_times(items_view(items@).take(i as int)).len(),
            count <= i,
            count > 0 ==> lo == seq_min(start_times(items_view(items@).take(i as int))),
            count > 0 ==> hi == seq_max(start_times(items_view(items@).take(i as int))),
        decreases items.len() - i,
    {
        let ghost pre = items_view(items@).take(i as int);
        let ghost post = items_view(items@).take(i + 1);
        assert(post.drop_last() =~= pre);
        assert(post.last() == items@[i as int]@);
        match lenient_field_exec(&items[i], "start_time") {
            Some(t) => {
                proof {
                    let st = start_times(post);
                    assert(st == start_times(pre).push(t));
                    assert(st.drop_last() =~= start_times(pre));
                    assert(st.last() == t);
                }
                if count == 0 || t < lo {
                    lo = t;
                }
                if count == 0 || t > hi {
                    hi = t;
                }
                count = count + 1;
            },
            None => {},
        }
        i = i + 1;
    }
    assert(items_view(items@).take(items.len() as int) =~= items_view(items@));
    (count, lo, hi)
}

fn with_times_exec(d: &mut Json)
    ensures
        final(d)@ == with_times(old(d)@),
{
    let (count, lo, hi) = match d.get("screen_list") {
        Some(Json::Array(items)) => start_times_exec(items),
        _ => (0, 0, 0),
    };
    proof {
        if d@.at("screen_list"@).as_array() is None {
            assert(screen_list_of(d@) =~= Seq::<JsonV>::empty());
        }
    }
    if !d.contains_key("start_time") && count > 0 {
        d.set("start_time", Json::from_i64(lo));
    }
    if !d.contains_key("end_time") {
        match get_copy(d, "endTime") {
            Some(e) => d.set("end_time", e),
            None => {
                if count > 0 {
                    d.set("end_time", Json::from_i64(hi));
                }
            },
        }
    }
}

/// Brings a project object to one shape (see `normalize_data_spec`).
pub fn normalize_data(d: &mut Json, id: &str)
    ensures
        final(d)@ == normalize_data_spec(old(d)@, id@),
{
    with_ids_exec(d, id);
    with_alias_exec(d, "name", "projectName");
    with_hot_exec(d);
    with_screens_exec(d);
    with_alias_exec(d, "venue_info", "skuVenueInfo");
    with_alias_exec(d, "sales_dates", "salesDates");
    with_eticket_exec(d);
    with_times_exec(d);
}

/// Normalizes the `data` object of a project response in place.
pub fn normalize_project_data(res: &mut Json, id: &str)
    ensures
        final(res)@ == normalize_spec(old(res)@, id@),
{
    let data = match res.get("data") {
        Some(d) => {
            match d {
                Json::Object(_) => Some(d.deep_clone()),
                _ => None,
            }
        },
        None => None,
    };
    match data {
        Some(d) => {
            let mut d = d;
            normalize_data(&mut d, id);
            res.set("data", d);
        },
        None => {},
    }
}

/// What holds of a project object once it is normalized: every member a step
/// fills in is present, or the member it would be filled from is absent.
pub open spec fn normalized(d: JsonV) -> bool {
    let ts = start_times(screen_list_of(d));
    &&& d is Object
    &&& d.has("id"@) && d.has("project_id"@)
    &&& d.has("name"@) || !d.has("projectName"@)
    &&& d.at("hotProject"@) is Bool && d.get("hot_project"@) == d.get("hotProject"@)
    &&& d.has("screen_list"@) == d.has("screenList"@)
    &&& d.has("venue_info"@) || !d.has("skuVenueInfo"@)
    &&& d.has("sales_dates"@) || !d.has("salesDates"@)
    &&& d.has("has_eticket"@)
    &&& d.has("start_time"@) || ts.len() == 0
    &&& d.has("end_time"@) || (!d.has("endTime"@) && ts.len() == 0)
}

/// The member names that normalizing reads and writes are distinct.
#[verifier::rlimit(100)]
proof fn lemma_project_keys_distinct()
    ensures
        "id"@ != "project_id"@,
        "id"@ != "projectId"@,
        "id"@ != "itemsId"@,
        "id"@ != "name"@,
        "id"@ != "projectName"@,
        "id"@ != "hotProject"@,
        "id"@ != "hot_project"@,
        "id"@ != "screen_list"@,
        "id"@ != "screenList"@,
        "id"@ != "venue_info"@,
        "id"@ != "skuVenueInfo"@,
        "id"@ != "sales_dates"@,
        "id"@ != "salesDates"@,
        "id"@ != "has_eticket"@,
        "id"@ != "start_time"@,
        "id"@ != "end_time"@,
        "id"@ != "endTime"@,
        "project_id"@ != "projectId"@,
        "project_id"@ != "itemsId"@,
        "project_id"@ != "name"@,
        "project_id"@ != "projectName"@,
        "project_id"@ != "hotProject"@,
        "project_id"@ != "hot_project"@,
        "project_id"@ != "screen_list"@,
        "project_id"@ != "screenList"@,
        "project_id"@ != "venue_info"@,
        "project_id"@ != "skuVenueInfo"@,
        "project_id"@ != "sales_dates"@,
        "project_id"@ != "salesDates"@,
        "project_id"@ != "has_eticket"@,
        "project_id"@ != "start_time"@,
        "project_id"@ != "end_time"@,
        "project_id"@ != "endTime"@,
        "projectId"@ != "itemsId"@,
        "projectId"@ != "name"@,
        "projectId"@ != "projectName"@,
        "projectId"@ != "hotProject"@,
        "projectId"@ != "hot_project"@,
        "projectId"@ != "screen_list"@,
        "projectId"@ != "screenList"@,
        "projectId"@ != "venue_info"@,
        "projectId"@ != "skuVenueInfo"@,
        "projectId"@ != "sales_dates"@,
        "projectId"@ != "salesDates"@,
        "projectId"@ != "has_eticket"@,
        "projectId"@ != "start_time"@,
        "projectId"@ != "end_time"@,
        "projectId"@ != "endTime"@,
        "itemsId"@ != "name"@,
        "itemsId"@ != "projectName"@,
        "itemsId"@ != "hotProject"@,
        "itemsId"@ != "hot_project"@,
        "itemsId"@ != "screen_list"@,
        "itemsId"@ != "screenList"@,
        "itemsId"@ != "venue_info"@,
        "itemsId"@ != "skuVenueInfo"@,
        "itemsId"@ != "sales_dates"@,
        "itemsId"@ != "salesDates"@,
        "itemsId"@ != "has_eticket"@,
        "itemsId"@ != "start_time"@,
        "itemsId"@ != "end_time"@,
        "itemsId"@ != "endTime"@,
        "name"@ != "projectName"@,
        "name"@ != "hotProject"@,
        "name"@ != "hot_project"@,
        "name"@ != "screen_list"@,
        "name"@ != "screenList"@,
        "name"@ != "venue_info"@,
        "name"@ != "skuVenueInfo"@,
        "name"@ != "sales_dates"@,
        "name"@ != "salesDates"@,
        "name"@ != "has_eticket"@,
        "name"@ != "start_time"@,
        "name"@ != "end_time"@,
        "name"@ != "endTime"@,
        "projectName"@ != "hotProject"@,
        "projectName"@ != "hot_project"@,
        "projectName"@ != "screen_list"@,
        "projectName"@ != "screenList"@,
        "projectName"@ != "venue_info"@,
        "projectName"@ != "skuVenueInfo"@,
        "projectName"@ != "sales_dates"@,
        "projectName"@ != "salesDates"@,
        "projectName"@ != "has_eticket"@,
        "projectName"@ != "start_time"@,
        "projectName"@ != "end_time"@,
        "projectName"@ != "endTime"@,
        "hotProject"@ != "hot_project"@,
        "hotProject"@ != "screen_list"@,
        "hotProject"@ != "screenList"@,
        "hotProject"@ != "venue_info"@,
        "hotProject"@ != "skuVenueInfo"@,
        "hotProject"@ != "sales_dates"@,
        "hotProject"@ != "salesDates"@,
        "hotProject"@ != "has_eticket"@,
        "hotProject"@ != "start_time"@,
        "hotProject"@ != "end_time"@,
        "hotProject"@ != "endTime"@,
        "hot_project"@ != "screen_list"@,
        "hot_project"@ != "screenList"@,
        "hot_project"@ != "venue_info"@,
        "hot_project"@ != "skuVenueInfo"@,
        "hot_project"@ != "sales_dates"@,
        "hot_project"@ != "salesDates"@,
        "hot_project"@ != "has_eticket"@,
        "hot_project"@ != "start_time"@,
        "hot_project"@ != "end_time"@,
        "hot_project"@ != "endTime"@,
        "screen_list"@ != "screenList"@,
        "screen_list"@ != "venue_info"@,
        "screen_list"@ != "skuVenueInfo"@,
        "screen_list"@ != "sales_dates"@,
        "screen_list"@ != "salesDates"@,
        "screen_list"@ != "has_eticket"@,
        "screen_list"@ != "start_time"@,
        "screen_list"@ != "end_time"@,
        "screen_list"@ != "endTime"@,
        "screenList"@ != "venue_info"@,
        "screenList"@ != "skuVenueInfo"@,
        "screenList"@ != "sales_dates"@,
        "screenList"@ != "salesDates"@,
        "screenList"@ != "has_eticket"@,
        "screenList"@ != "start_time"@,
        "screenList"@ != "end_time"@,
        "screenList"@ != "endTime"@,
        "venue_info"@ != "skuVenueInfo"@,
        "venue_info"@ != "sales_dates"@,
        "venue_info"@ != "salesDates"@,
        "venue_info"@ != "has_eticket"@,
        "venue_info"@ != "start_time"@,
        "venue_info"@ != "end_time"@,
        "venue_info"@ != "endTime"@,
        "skuVenueInfo"@ != "sales_dates"@,
        "skuVenueInfo"@ != "salesDates"@,
        "skuVenueInfo"@ != "has_eticket"@,
        "skuVenueInfo"@ != "start_time"@,
        "skuVenueInfo"@ != "end_time"@,
        "skuVenueInfo"@ != "endTime"@,
        "sales_dates"@ != "salesDates"@,
        "sales_dates"@ != "has_eticket"@,
        "sales_dates"@ != "start_time"@,
        "sales_dates"@ != "end_time"@,
        "sales_dates"@ != "endTime"@,
        "salesDates"@ != "has_eticket"@,
        "salesDates"@ != "start_time"@,
        "salesDates"@ != "end_time"@,
        "salesDates"@ != "endTime"@,
        "has_eticket"@ != "start_time"@,
        "has_eticket"@ != "end_time"@,
        "has_eticket"@ != "endTime"@,
        "start_time"@ != "end_time"@,
        "start_time"@ != "endTime"@,
        "end_time"@ != "endTime"@,
{
    reveal_strlit("id");
    reveal_strlit("project_id");
    reveal_strlit("projectId");
    reveal_strlit("itemsId");
    reveal_strlit("name");
    reveal_strlit("projectName");
    reveal_strlit("hotProject");
    reveal_strlit("hot_project");
    reveal_strlit("screen_list");
    reveal_strlit("screenList");
    reveal_strlit("venue_info");
    reveal_strlit("skuVenueInfo");
    reveal_strlit("sales_dates");
    reveal_strlit("salesDates");
    reveal_strlit("has_eticket");
    reveal_strlit("start_time");
    reveal_strlit("end_time");
    reveal_strlit("endTime");
    assert("id"@.len() != "project_id"@.len());
    assert("id"@.len() != "projectId"@.len());
    assert("id"@.len() != "itemsId"@.len());
    assert("id"@.len() != "name"@.len());
    assert("id"@.len() != "projectName"@.len());
    assert("id"@.len() != "hotProject"@.len());
    assert("id"@.len() != "hot_project"@.len());
    assert("id"@.len() != "screen_list"@.len());
    assert("id"@.len() != "screenList"@.len());
    assert("id"@.len() != "venue_info"@.len());
    assert("id"@.len() != "skuVenueInfo"@.len());
    assert("id"@.len() != "sales_dates"@.len());
    assert("id"@.len() != "salesDates"@.len());
    assert("id"@.len() != "has_eticket"@.len());
    assert("id"@.len() != "start_time"@.len());
    assert("id"@.len() != "end_time"@.len());
    assert("id"@.len() != "endTime"@.len());
    assert("project_id"@.len() != "projectId"@.len());
    assert("project_id"@.len() != "itemsId"@.len());
    assert("project_id"@.len() != "name"@.len());
    assert("project_id"@.len() != "projectName"@.len());
    assert("project_id"@[0] != "hotProject"@[0]);
    assert("project_id"@.len() != "hot_project"@.len());
    assert("project_id"@.len() != "screen_list"@.len());
    assert("project_id"@[0] != "screenList"@[0]);
    assert("project_id"@[0] != "venue_info"@[0]);
    assert("project_id"@.len() != "skuVenueInfo"@.len());
    assert("project_id"@.len() != "sales_dates"@.len());
    assert("project_id"@[0] != "salesDates"@[0]);
    assert("project_id"@.len() != "has_eticket"@.len());
    assert("project_id"@[0] != "start_time"@[0]);
    assert("project_id"@.len() != "end_time"@.len());
    assert("project_id"@.len() != "endTime"@.len());
    assert("projectId"@.len() != "itemsId"@.len());
    assert("projectId"@.len() != "name"@.len());
    assert("projectId"@.len() != "projectName"@.len());
    assert("projectId"@.len() != "hotProject"@.len());
    assert("projectId"@.len() != "hot_project"@.len());
    assert("projectId"@.len() != "screen_list"@.len());
    assert("projectId"@.len() != "screenList"@.len());
    assert("projectId"@.len() != "venue_info"@.len());
    assert("projectId"@.len() != "skuVenueInfo"@.len());
    assert("projectId"@.len() != "sales_dates"@.len());
    assert("projectId"@.len() != "salesDates"@.len());
    assert("projectId"@.len() != "has_eticket"@.len());
    assert("projectId"@.len() != "start_time"@.len());
    assert("projectId"@.len() != "end_time"@.len());
    assert("projectId"@.len() != "endTime"@.len());
    assert("itemsId"@.len() != "name"@.len());
    assert("itemsId"@.len() != "projectName"@.len());
    assert("itemsId"@.len() != "hotProject"@.len());
    assert("itemsId"@.len() != "hot_project"@.len());
    assert("itemsId"@.len() != "screen_list"@.len());
    assert("itemsId"@.len() != "screenList"@.len());
    assert("itemsId"@.len() != "venue_info"@.len());
    assert("itemsId"@.len() != "skuVenueInfo"@.len());
    assert("itemsId"@.len() != "sales_dates"@.len());
    assert("itemsId"@.len() != "salesDates"@.len());
    assert("itemsId"@.len() != "has_eticket"@.len());
    assert("itemsId"@.len() != "start_time"@.len());
    assert("itemsId"@.len() != "end_time"@.len());
    assert("itemsId"@[0] != "endTime"@[0]);
    assert("name"@.len() != "projectName"@.len());
    assert("name"@.len() != "hotProject"@.len());
    assert("name"@.len() != "hot_project"@.len());
    assert("name"@.len() != "screen_list"@.len());
    assert("name"@.len() != "screenList"@.len());
    assert("name"@.len() != "venue_info"@.len());
    assert("name"@.len() != "skuVenueInfo"@.len());
    assert("name"@.len() != "sales_dates"@.len());
    assert("name"@.len() != "salesDates"@.len());
    assert("name"@.len() != "has_eticket"@.len());
    assert("name"@.len() != "start_time"@.len());
    assert("name"@.len() != "end_time"@.len());
    assert("name"@.len() != "endTime"@.len());
    assert("projectName"@.len() != "hotProject"@.len());
    assert("projectName"@[0] != "hot_project"@[0]);
    assert("projectName"@[0] != "screen_list"@[0]);
    assert("projectName"@.len() != "screenList"@.len());
    assert("projectName"@.len() != "venue_info"@.len());
    assert("projectName"@.len() != "skuVenueInfo"@.len());
    assert("projectName"@[0] != "sales_dates"@[0]);
    assert("projectName"@.len() != "salesDates"@.len());
    assert("projectName"@[0] != "has_eticket"@[0]);
    assert("projectName"@.len() != "start_time"@.len());
    assert("projectName"@.len() != "end_time"@.len());
    assert("projectName"@.len() != "endTime"@.len());
    assert("hotProject"@.len() != "hot_project"@.len());
    assert("hotProject"@.len() != "screen_list"@.len());
    assert("hotProject"@[0] != "screenList"@[0]);
    assert("hotProject"@[0] != "venue_info"@[0]);
    assert("hotProject"@.len() != "skuVenueInfo"@.len());
    assert("hotProject"@.len() != "sales_dates"@.len());
    assert("hotProject"@[0] != "salesDates"@[0]);
    assert("hotProject"@.len() != "has_eticket"@.len());
    assert("hotProject"@[0] != "start_time"@[0]);
    assert("hotProject"@.len() != "end_time"@.len());
    assert("hotProject"@.len() != "endTime"@.len());
    assert("hot_project"@[0] != "screen_list"@[0]);
    assert("hot_project"@.len() != "screenList"@.len());
    assert("hot_project"@.len() != "venue_info"@.len());
    assert("hot_project"@.len() != "skuVenueInfo"@.len());
    assert("hot_project"@[0] != "sales_dates"@[0]);
    assert("hot_project"@.len() != "salesDates"@.len());
    assert("hot_project"@[1] != "has_eticket"@[1]);
    assert("hot_project"@.len() != "start_time"@.len());
    assert("hot_project"@.len() != "end_time"@.len());
    assert("hot_project"@.len() != "endTime"@.len());
    assert("screen_list"@.len() != "screenList"@.len());
    assert("screen_list"@.len() != "venue_info"@.len());
    assert("screen_list"@.len() != "skuVenueInfo"@.len());
    assert("screen_list"@[1] != "sales_dates"@[1]);
    assert("screen_list"@.len() != "salesDates"@.len());
    assert("screen_list"@[0] != "has_eticket"@[0]);
    assert("screen_list"@.len() != "start_time"@.len());
    assert("screen_list"@.len() != "end_time"@.len());
    assert("screen_list"@.len() != "endTime"@.len());
    assert("screenList"@[0] != "venue_info"@[0]);
    assert("screenList"@.len() != "skuVenueInfo"@.len());
    assert("screenList"@.len() != "sales_dates"@.len());
    assert("screenList"@[1] != "salesDates"@[1]);
    assert("screenList"@.len() != "has_eticket"@.len());
    assert("screenList"@[1] != "start_time"@[1]);
    assert("screenList"@.len() != "end_time"@.len());
    assert("screenList"@.len() != "endTime"@.len());
    assert("venue_info"@.len() != "skuVenueInfo"@.len());
    assert("venue_info"@.len() != "sales_dates"@.len());
    assert("venue_info"@[0] != "salesDates"@[0]);
    assert("venue_info"@.len() != "has_eticket"@.len());
    assert("venue_info"@[0] != "start_time"@[0]);
    assert("venue_info"@.len() != "end_time"@.len());
    assert("venue_info"@.len() != "endTime"@.len());
    assert("skuVenueInfo"@.len() != "sales_dates"@.len());
    assert("skuVenueInfo"@.len() != "salesDates"@.len());
    assert("skuVenueInfo"@.len() != "has_eticket"@.len());
    assert("skuVenueInfo"@.len() != "start_time"@.len());
    assert("skuVenueInfo"@.len() != "end_time"@.len());
    assert("skuVenueInfo"@.len() != "endTime"@.len());
    assert("sales_dates"@.len() != "salesDates"@.len());
    assert("sales_dates"@[0] != "has_eticket"@[0]);
    assert("sales_dates"@.len() != "start_time"@.len());
    assert("sales_dates"@.len() != "end_time"@.len());
    assert("sales_dates"@.len() != "endTime"@.len());
    assert("salesDates"@.len() != "has_eticket"@.len());
    assert("salesDates"@[1] != "start_time"@[1]);
    assert("salesDates"@.len() != "end_time"@.len());
    assert("salesDates"@.len() != "endTime"@.len());
    assert("has_eticket"@.len() != "start_time"@.len());
    assert("has_eticket"@.len() != "end_time"@.len());
    assert("has_eticket"@.len() != "endTime"@.len());
    assert("start_time"@.len() != "end_time"@.len());
    assert("start_time"@.len() != "endTime"@.len());
    assert("end_time"@.len() != "endTime"@.len());
}

proof fn lemma_ids_step(d: JsonV, id: Seq<char>)
    requires
        d is Object,
    ensures
        with_ids(d, id) is Object,
        with_ids(d, id).has("id"@) && with_ids(d, id).has("project_id"@),
        forall|k: Seq<char>|
            k != "id"@ && k != "project_id"@ ==> #[trigger] with_ids(d, id).get(k) == d.get(k),
{
    lemma_project_keys_distinct();
    let pid = match first_of3(d.get("id"@), d.get("projectId"@), d.get("itemsId"@)) {
        Some(v) => v,
        None => JsonV::Str(id),
    };
    let d1 = d.set("id"@, pid);
    lemma_object_set(d, "id"@, pid);
    if !d1.has("project_id"@) {
        lemma_object_set(d1, "project_id"@, pid);
    }
}

proof fn lemma_alias_step(d: JsonV, key: Seq<char>, source: Seq<char>)
    requires
        d is Object,
        key != source,
    ensures
        with_alias(d, key, source) is Object,
        with_alias(d, key, source).has(key) || !with_alias(d, key, source).has(source),
        forall|k: Seq<char>| k != key ==> #[trigger] with_alias(d, key, source).get(k) == d.get(k),
{
    if !d.has(key) && d.get(source) is Some {
        lemma_object_set(d, key, d.get(source)->Some_0);
    }
}

proof fn lemma_hot_step(d: JsonV)
    requires
        d is Object,
    ensures
        with_hot(d) is Object,
        with_hot(d).at("hotProject"@) is Bool,
        with_hot(d).get("hot_project"@) == with_hot(d).get("hotProject"@),
        forall|k: Seq<char>|
            k != "hotProject"@ && k != "hot_project"@ ==> #[trigger] with_hot(d).get(k) == d.get(k),
{
    lemma_project_keys_distinct();
    let hot = match first_of2(d.get("hotProject"@), d.get("hot_project"@)) {
        Some(v) => match lenient_bool(v) {
            Some(b) => b,
            None => false,
        },
        None => false,
    };
    let d1 = d.set("hotProject"@, JsonV::Bool(hot));
    lemma_object_set(d, "hotProject"@, JsonV::Bool(hot));
    lemma_object_set(d1, "hot_project"@, JsonV::Bool(hot));
    assert(with_hot(d) == d1.set("hot_project"@, JsonV::Bool(hot)));
    assert(with_hot(d).get("hotProject"@) == d1.get("hotProject"@));
}

proof fn lemma_screens_step(d: JsonV)
    requires
        d is Object,
    ensures
        with_screens(d) is Object,
        with_screens(d).has("screen_list"@) == with_screens(d).has("screenList"@),
        forall|k: Seq<char>|
            k != "screen_list"@ && k != "screenList"@ ==> #[trigger] with_screens(d).get(k) == d.get(k),
{
    lemma_project_keys_distinct();
    let screens = first_of2(d.get("screen_list"@), d.get("screenList"@));
    let fill = d.at("screen_list"@).as_array() is None && screens is Some;
    let d1 = if fill {
        d.set("screen_list"@, screens->Some_0)
    } else {
        d
    };
    if fill {
        lemma_object_set(d, "screen_list"@, screens->Some_0);
    }
    if !d1.has("screenList"@) && screens is Some {
        lemma_object_set(d1, "screenList"@, screens->Some_0);
    }
    assert(d1.get("screenList"@) == d.get("screenList"@));
}

proof fn lemma_eticket_step(d: JsonV)
    requires
        d is Object,
    ensures
        with_eticket(d) is Object,
        with_eticket(d).has("has_eticket"@),
        forall|k: Seq<char>| k != "has_eticket"@ ==> #[trigger] with_eticket(d).get(k) == d.get(k),
{
    if !d.has("has_eticket"@) {
        lemma_object_set(d, "has_eticket"@, JsonV::Bool(!some_fee(screen_list_of(d))));
    }
}

proof fn lemma_times_step(d: JsonV)
    requires
        d is Object,
    ensures
        with_times(d) is Object,
        screen_list_of(with_times(d)) == screen_list_of(d),
        with_times(d).has("start_time"@) || start_times(screen_list_of(d)).len() == 0,
        with_times(d).has("end_time"@) || (!with_times(d).has("endTime"@) && start_times(
            screen_list_of(d),
        ).len() == 0),
        forall|k: Seq<char>|
            k != "start_time"@ && k != "end_time"@ ==> #[trigger] with_times(d).get(k) == d.get(k),
{
    lemma_project_keys_distinct();
    let ts = start_times(screen_list_of(d));
    let first = !d.has("start_time"@) && ts.len() > 0;
    let d1 = if first {
        d.set("start_time"@, int_json(seq_min(ts)))
    } else {
        d
    };
    if first {
        lemma_object_set(d, "start_time"@, int_json(seq_min(ts)));
    }
    assert(d1.get("end_time"@) == d.get("end_time"@));
    assert(d1.get("endTime"@) == d.get("endTime"@));
    if !d1.has("end_time"@) {
        if d1.get("endTime"@) is Some {
            lemma_object_set(d1, "end_time"@, d1.get("endTime"@)->Some_0);
        } else if ts.len() > 0 {
            lemma_object_set(d1, "end_time"@, int_json(seq_max(ts)));
        }
    }
    assert(with_times(d).get("screen_list"@) == d.get("screen_list"@));
    assert(with_times(d).get("start_time"@) is Some || d1 == d);
}

/// Normalizing a project object makes it `normalized`.
proof fn lemma_normalize_establishes(d: JsonV, id: Seq<char>)
    requires
        d is Object,
    ensures
        normalized(normalize_data_spec(d, id)),
{
    lemma_project_keys_distinct();
    let d1 = with_ids(d, id);
    lemma_ids_step(d, id);
    let d2 = with_alias(d1, "name"@, "projectName"@);
    lemma_alias_step(d1, "name"@, "projectName"@);
    let d3 = with_hot(d2);
    lemma_hot_step(d2);
    let d4 = with_screens(d3);
    lemma_screens_step(d3);
    let d5 = with_alias(d4, "venue_info"@, "skuVenueInfo"@);
    lemma_alias_step(d4, "venue_info"@, "skuVenueInfo"@);
    let d6 = with_alias(d5, "sales_dates"@, "salesDates"@);
    lemma_alias_step(d5, "sales_dates"@, "salesDates"@);
    let d7 = with_eticket(d6);
    lemma_eticket_step(d6);
    let d8 = with_times(d7);
    lemma_times_step(d7);
    assert(d2.get("id"@) == d1.get("id"@));
    assert(d2.get("project_id"@) == d1.get("project_id"@));
    assert(d3.get("id"@) == d2.get("id"@));
    assert(d3.get("project_id"@) == d2.get("project_id"@));
    assert(d3.get("name"@) == d2.get("name"@));
    assert(d3.get("projectName"@) == d2.get("projectName"@));
    assert(d4.get("id"@) == d3.get("id"@));
    assert(d4.get("project_id"@) == d3.get("project_id"@));
    assert(d4.get("name"@) == d3.get("name"@));
    assert(d4.get("projectName"@) == d3.get("projectName"@));
    assert(d4.get("hotProject"@) == d3.get("hotProject"@));
    assert(d4.get("hot_project"@) == d3.get("hot_project"@));
    assert(d5.get("id"@) == d4.get("id"@));
    assert(d5.get("project_id"@) == d4.get("project_id"@));
    assert(d5.get("name"@) == d4.get("name"@));
    assert(d5.get("projectName"@) == d4.get("projectName"@));
    assert(d5.get("hotProject"@) == d4.get("hotProject"@));
    assert(d5.get("hot_project"@) == d4.get("hot_project"@));
    assert(d5.get("screen_list"@) == d4.get("screen_list"@));
    assert(d5.get("screenList"@) == d4.get("screenList"@));
    assert(d5.get("skuVenueInfo"@) == d4.get("skuVenueInfo"@));
    assert(d6.get("id"@) == d5.get("id"@));
    assert(d6.get("project_id"@) == d5.get("project_id"@));
    assert(d6.get("name"@) == d5.get("name"@));
    assert(d6.get("projectName"@) == d5.get("projectName"@));
    assert(d6.get("hotProject"@) == d5.get("hotProject"@));
    assert(d6.get("hot_project"@) == d5.get("hot_project"@));
    assert(d6.get("screen_list"@) == d5.get("screen_list"@));
    assert(d6.get("screenList"@) == d5.get("screenList"@));
    assert(d6.get("venue_info"@) == d5.get("venue_info"@));
    assert(d6.get("skuVenueInfo"@) == d5.get("skuVenueInfo"@));
    assert(d6.get("salesDates"@) == d5.get("salesDates"@));
    assert(d7.get("id"@) == d6.get("id"@));
    assert(d7.get("project_id"@) == d6.get("project_id"@));
    assert(d7.get("name"@) == d6.get("name"@));
    assert(d7.get("projectName"@) == d6.get("projectName"@));
    assert(d7.get("hotProject"@) == d6.get("hotProject"@));
    assert(d7.get("hot_project"@) == d6.get("hot_project"@));
    assert(d7.get("screen_list"@) == d6.get("screen_list"@));
    assert(d7.get("screenList"@) == d6.get("screenList"@));
    assert(d7.get("venue_info"@) == d6.get("venue_info"@));
    assert(d7.get("skuVenueInfo"@) == d6.get("skuVenueInfo"@));
    assert(d7.get("sales_dates"@) == d6.get("sales_dates"@));
    assert(d7.get("salesDates"@) == d6.get("salesDates"@));
    assert(d8.get("id"@) == d7.get("id"@));
    assert(d8.get("project_id"@) == d7.get("project_id"@));
    assert(d8.get("name"@) == d7.get("name"@));
    assert(d8.get("projectName"@) == d7.get("projectName"@));
    assert(d8.get("hotProject"@) == d7.get("hotProject"@));
    assert(d8.get("hot_project"@) == d7.get("hot_project"@));
    assert(d8.get("screen_list"@) == d7.get("screen_list"@));
    assert(d8.get("screenList"@) == d7.get("screenList"@));
    assert(d8.get("venue_info"@) == d7.get("venue_info"@));
    assert(d8.get("skuVenueInfo"@) == d7.get("skuVenueInfo"@));
    assert(d8.get("sales_dates"@) == d7.get("sales_dates"@));
    assert(d8.get("salesDates"@) == d7.get("salesDates"@));
    assert(d8.get("has_eticket"@) == d7.get("has_eticket"@));
    assert(d8 == normalize_data_spec(d, id));
}

/// A normalized project object is left as it is by normalizing it again.
proof fn lemma_normalized_is_fixed(d: JsonV, id: Seq<char>)
    requires
        normalized(d),
    ensures
        normalize_data_spec(d, id) == d,
{
    crate::json::law_object_set_current(d, "id"@, d.get("id"@)->Some_0);
    assert(with_ids(d, id) == d);
    assert(with_alias(d, "name"@, "projectName"@) == d);
    let h = d.at("hotProject"@);
    crate::json::law_object_set_current(d, "hotProject"@, h);
    crate::json::law_object_set_current(d, "hot_project"@, h);
    assert(JsonV::Bool(h->Bool_0) == h);
    assert(with_hot(d) == d);
    if d.has("screen_list"@) {
        crate::json::law_object_set_current(d, "screen_list"@, d.get("screen_list"@)->Some_0);
    }
    assert(with_screens(d) == d);
    assert(with_alias(d, "venue_info"@, "skuVenueInfo"@) == d);
    assert(with_alias(d, "sales_dates"@, "salesDates"@) == d);
    assert(with_eticket(d) == d);
    assert(with_times(d) == d);
}

proof fn lemma_seq_min_max(s: Seq<i64>)
    requires
        s.len() > 0,
    ensures
        exists|i: int| 0 <= i < s.len() && s[i] == seq_min(s),
        exists|i: int| 0 <= i < s.len() && s[i] == seq_max(s),
        forall|j: int| 0 <= j < s.len() ==> seq_min(s) <= #[trigger] s[j] <= seq_max(s),
    decreases s.len(),
{
    if s.len() > 1 {
        let t = s.drop_last();
        lemma_seq_min_max(t);
        let a = choose|i: int| 0 <= i < t.len() && t[i] == seq_min(t);
        let b = choose|i: int| 0 <= i < t.len() && t[i] == seq_max(t);
        assert(s[a] == t[a] && s[b] == t[b]);
        assert forall|j: int| 0 <= j < s.len() implies seq_min(s) <= #[trigger] s[j] <= seq_max(s) by {
            if j < s.len() - 1 {
                assert(s[j] == t[j]);
            }
        }
    } else {
        assert(s[0] == seq_min(s));
    }
}

/// The readable start times of `list` are exactly the start times its screens
/// give.
proof fn lemma_start_times_members(list: Seq<JsonV>)
    ensures
        forall|i: int|
            #![trigger start_times(list)[i]]
            0 <= i < start_times(list).len() ==> exists|k: int|
                0 <= k < list.len() && lenient_field(#[trigger] list[k], "start_time"@) == Some(
                    start_times(list)[i],
                ),
        forall|k: int|
            0 <= k < list.len() && #[trigger] lenient_field(list[k], "start_time"@) is Some
                ==> exists|i: int|
                0 <= i < start_times(list).len() && start_times(list)[i] == lenient_field(
                    list[k],
                    "start_time"@,
                )->Some_0,
    decreases list.len(),
{
    if list.len() > 0 {
        let t = list.drop_last();
        lemma_start_times_members(t);
        let ts = start_times(list);
        let tt = start_times(t);
        assert forall|i: int| #![trigger ts[i]] 0 <= i < ts.len() implies exists|k: int|
            0 <= k < list.len() && lenient_field(#[trigger] list[k], "start_time"@) == Some(ts[i]) by {
            if i < tt.len() {
                assert(ts[i] == tt[i]);
                let k = choose|k: int|
                    0 <= k < t.len() && lenient_field(#[trigger] t[k], "start_time"@) == Some(tt[i]);
                assert(list[k] == t[k]);
            } else {
                assert(list[list.len() - 1] == list.last());
            }
        }
        assert forall|k: int|
            0 <= k < list.len() && #[trigger] lenient_field(list[k], "start_time"@) is Some implies exists|i: int|
            0 <= i < ts.len() && ts[i] == lenient_field(list[k], "start_time"@)->Some_0 by {
            if k < list.len() - 1 {
                assert(list[k] == t[k]);
                let i = choose|i: int|
                    0 <= i < tt.len() && tt[i] == lenient_field(t[k], "start_time"@)->Some_0;
                assert(ts[i] == tt[i]);
            } else {
                assert(ts[ts.len() - 1] == lenient_field(list.last(), "start_time"@)->Some_0);
            }
        }
    }
}

/// The first seven steps of normalizing (all but the times).
pub open spec fn normalize_before_times(d: JsonV, id: Seq<char>) -> JsonV {
    with_eticket(
        with_alias(
            with_alias(with_screens(with_hot(with_alias(with_ids(d, id), "name"@, "projectName"@))), "venue_info"@, "skuVenueInfo"@),
            "sales_dates"@,
            "salesDates"@,
        ),
    )
}

proof fn lemma_before_times_keeps_times(d: JsonV, id: Seq<char>)
    requires
        d is Object,
    ensures
        normalize_before_times(d, id) is Object,
        normalize_data_spec(d, id) == with_times(normalize_before_times(d, id)),
        normalize_before_times(d, id).get("start_time"@) == d.get("start_time"@),
        normalize_before_times(d, id).get("end_time"@) == d.get("end_time"@),
        normalize_before_times(d, id).get("endTime"@) == d.get("endTime"@),
{
    lemma_project_keys_distinct();
    let d1 = with_ids(d, id);
    lemma_ids_step(d, id);
    let d2 = with_alias(d1, "name"@, "projectName"@);
    lemma_alias_step(d1, "name"@, "projectName"@);
    let d3 = with_hot(d2);
    lemma_hot_step(d2);
    let d4 = with_screens(d3);
    lemma_screens_step(d3);
    let d5 = with_alias(d4, "venue_info"@, "skuVenueInfo"@);
    lemma_alias_step(d4, "venue_info"@, "skuVenueInfo"@);
    let d6 = with_alias(d5, "sales_dates"@, "salesDates"@);
    lemma_alias_step(d5, "sales_dates"@, "salesDates"@);
    let d7 = with_eticket(d6);
    lemma_eticket_step(d6);
    assert(d1.get("start_time"@) == d.get("start_time"@));
    assert(d1.get("end_time"@) == d.get("end_time"@));
    assert(d1.get("endTime"@) == d.get("endTime"@));
    assert(d2.get("start_time"@) == d1.get("start_time"@));
    assert(d2.get("end_time"@) == d1.get("end_time"@));
    assert(d2.get("endTime"@) == d1.get("endTime"@));
    assert(d3.get("start_time"@) == d2.get("start_time"@));
    assert(d3.get("end_time"@) == d2.get("end_time"@));
    assert(d3.get("endTime"@) == d2.get("endTime"@));
    assert(d4.get("start_time"@) == d3.get("start_time"@));
    assert(d4.get("end_time"@) == d3.get("end_time"@));
    assert(d4.get("endTime"@) == d3.get("endTime"@));
    assert(d5.get("start_time"@) == d4.get("start_time"@));
    assert(d5.get("end_time"@) == d4.get("end_time"@));
    assert(d5.get("endTime"@) == d4.get("endTime"@));
    assert(d6.get("start_time"@) == d5.get("start_time"@));
    assert(d6.get("end_time"@) == d5.get("end_time"@));
    assert(d6.get("endTime"@) == d5.get("endTime"@));
    assert(d7.get("start_time"@) == d6.get("start_time"@));
    assert(d7.get("end_time"@) == d6.get("end_time"@));
    assert(d7.get("endTime"@) == d6.get("endTime"@));
}

/// The earliest and the latest start time that the screens of `d` give, as
/// some screen gives it.
proof fn lemma_extreme_screen_starts(d: JsonV)
    requires
        exists|k: int|
            0 <= k < screen_list_of(d).len() && #[trigger] lenient_field(screen_list_of(d)[k], "start_time"@) is Some,
    ensures
        ({
            let screens = screen_list_of(d);
            let ts = start_times(screens);
            &&& ts.len() > 0
            &&& exists|k: int|
                0 <= k < screens.len() && #[trigger] lenient_field(screens[k], "start_time"@) == Some(seq_min(ts))
            &&& exists|k: int|
                0 <= k < screens.len() && #[trigger] lenient_field(screens[k], "start_time"@) == Some(seq_max(ts))
            &&& forall|j: int|
                0 <= j < screens.len() && #[trigger] lenient_field(screens[j], "start_time"@) is Some
                    ==> seq_min(ts) <= lenient_field(screens[j], "start_time"@)->Some_0 <= seq_max(ts)
        }),
{
    let screens = screen_list_of(d);
    let ts = start_times(screens);
    lemma_start_times_members(screens);
    let k = choose|k: int|
        0 <= k < screens.len() && #[trigger] lenient_field(screens[k], "start_time"@) is Some;
    let i = choose|i: int| 0 <= i < ts.len() && ts[i] == lenient_field(screens[k], "start_time"@)->Some_0;
    lemma_seq_min_max(ts);
    let a = choose|i: int| 0 <= i < ts.len() && ts[i] == seq_min(ts);
    let b = choose|i: int| 0 <= i < ts.len() && ts[i] == seq_max(ts);
    assert(ts[a] == ts[a]);
    assert(ts[b] == ts[b]);
    assert forall|j: int|
        0 <= j < screens.len() && #[trigger] lenient_field(screens[j], "start_time"@) is Some implies seq_min(ts)
        <= lenient_field(screens[j], "start_time"@)->Some_0 <= seq_max(ts) by {
        let i2 = choose|i2: int|
            0 <= i2 < ts.len() && ts[i2] == lenient_field(screens[j], "start_time"@)->Some_0;
        assert(ts[i2] == ts[i2]);
    }
}

/// The times that normalizing fills in. A project object without `start_time`
/// gets the earliest start time its screens give (when some screen gives
/// one); one with neither `end_time` nor `endTime` gets the latest; one with
/// `endTime` only gets that value as `end_time`. Times already present stay.
pub proof fn law_normalized_times(d: JsonV, id: Seq<char>)
    requires
        d is Object,
    ensures
        ({
            let n = normalize_data_spec(d, id);
            let screens = screen_list_of(n);
            let readable = exists|k: int|
                0 <= k < screens.len() && #[trigger] lenient_field(screens[k], "start_time"@) is Some;
            &&& (d.has("start_time"@) ==> n.get("start_time"@) == d.get("start_time"@))
            &&& (d.has("end_time"@) ==> n.get("end_time"@) == d.get("end_time"@))
            &&& (!d.has("end_time"@) && d.has("endTime"@) ==> n.get("end_time"@) == d.get("endTime"@))
            &&& (!d.has("start_time"@) && readable ==> exists|k: int|
                0 <= k < screens.len() && n.get("start_time"@) == Some(
                    int_json(#[trigger] lenient_field(screens[k], "start_time"@)->Some_0),
                ) && forall|j: int|
                    0 <= j < screens.len() && lenient_field(#[trigger] screens[j], "start_time"@) is Some
                        ==> lenient_field(screens[k], "start_time"@)->Some_0 <= lenient_field(
                        screens[j],
                        "start_time"@,
                    )->Some_0)
            &&& (!d.has("end_time"@) && !d.has("endTime"@) && readable ==> exists|k: int|
                0 <= k < screens.len() && n.get("end_time"@) == Some(
                    int_json(#[trigger] lenient_field(screens[k], "start_time"@)->Some_0),
                ) && forall|j: int|
                    0 <= j < screens.len() && lenient_field(#[trigger] screens[j], "start_time"@) is Some
                        ==> lenient_field(screens[j], "start_time"@)->Some_0 <= lenient_field(
                        screens[k],
                        "start_time"@,
                    )->Some_0)
        }),
{
    lemma_before_times_keeps_times(d, id);
    let d7 = normalize_before_times(d, id);
    let n = with_times(d7);
    lemma_times_step(d7);
    lemma_project_keys_distinct();
    let screens = screen_list_of(d7);
    assert(screen_list_of(n) == screens);
    let ts = start_times(screens);
    lemma_start_times_members(screens);
    let readable = exists|k: int|
        0 <= k < screens.len() && #[trigger] lenient_field(screens[k], "start_time"@) is Some;
    if readable {
        lemma_extreme_screen_starts(d7);
    }
    let first = !d7.has("start_time"@) && ts.len() > 0;
    let d8a = if first {
        d7.set("start_time"@, int_json(seq_min(ts)))
    } else {
        d7
    };
    if first {
        lemma_object_set(d7, "start_time"@, int_json(seq_min(ts)));
    }
    assert(d8a.get("end_time"@) == d7.get("end_time"@));
    assert(d8a.get("endTime"@) == d7.get("endTime"@));
    if !d8a.has("end_time"@) {
        if d8a.get("endTime"@) is Some {
            lemma_object_set(d8a, "end_time"@, d8a.get("endTime"@)->Some_0);
        } else if ts.len() > 0 {
            lemma_object_set(d8a, "end_time"@, int_json(seq_max(ts)));
        }
    }
    assert(n.get("start_time"@) == d8a.get("start_time"@));
}

/// Normalizing a project response twice gives what normalizing it once
/// gives, whatever id the second pass is given.
pub proof fn law_normalize_idempotent(res: JsonV, id: Seq<char>, id2: Seq<char>)
    ensures
        normalize_spec(normalize_spec(res, id), id2) == normalize_spec(res, id),
{
    if let Some(d) = res.get("data"@) {
        if d is Object {
            let nd = normalize_data_spec(d, id);
            lemma_normalize_establishes(d, id);
            lemma_normalized_is_fixed(nd, id2);
            lemma_object_set(res, "data"@, nd);
            crate::json::law_object_set_current(res.set("data"@, nd), "data"@, nd);
        }
    }
}

// ---------------------------------------------------------------------------
// Assembling a project response with its linked goods and express fees.
// ---------------------------------------------------------------------------

/// Values that `value[key] = ..` may be applied to without panicking.
pub open spec fn touchable(v: JsonV) -> bool {
    v is Null || v is Object
}

/// What a mutable `value[key]` leaves behind: `null` becomes an object holding
/// `key: null`, and an object lacking `key` gains `key: null`.
pub open spec fn touch(v: JsonV, key: Seq<char>) -> JsonV {
    match v {
        JsonV::Null => JsonV::Object(seq![(key, JsonV::Null)]),
        JsonV::Object(_) => if v.has(key) {
            v
        } else {
            v.set(key, JsonV::Null)
        },
        _ => v,
    }
}

fn touch_exec(v: &mut Json, key: &str)
    requires
        touchable(old(v)@),
    ensures
        final(v)@ == touch(old(v)@, key@),
        final(v)@.has(key@),
{
    match v {
        Json::Null => {
            let mut m: Vec<(String, Json)> = Vec::new();
            m.push((key.to_string(), Json::Null));
            proof {
                crate::json::lemma_members_view(m@);
                assert(crate::json::members_view(m@) =~= seq![(key@, JsonV::Null)]);
            }
            *v = Json::Object(m);
            proof {
                reveal_with_fuel(crate::json::obj_get, 2);
            }
        },
        _ => {
            if !v.contains_key(key) {
                v.set(key, Json::Null);
                proof {
                    match old(v)@ {
                        JsonV::Object(m) => {
                            crate::json::law_get_after_set(m, key@, JsonV::Null);
                        },
                        _ => {},
                    }
                }
            }
        },
    }
}

/// The express fee added to the tickets of `screen`: its non-negative
/// `express_fee` unless the project has e-tickets.
pub open spec fn fee_for(screen: JsonV, has_eticket: bool) -> int {
    match screen.at("express_fee"@).as_i64() {
        Some(f) => if !has_eticket && f >= 0 {
            f as int
        } else {
            0
        },
        None => 0,
    }
}

pub open spec fn priced_ticket(t: JsonV, fee: int) -> JsonV {
    match t.at("price"@).as_i64() {
        Some(p) => t.set("price"@, int_json((p + fee) as i64)),
        None => t,
    }
}

pub open spec fn priced_tickets(ts: Seq<JsonV>, fee: int) -> Seq<JsonV>
    decreases ts.len(),
{
    if ts.len() == 0 {
        seq![]
    } else {
        priced_tickets(ts.drop_last(), fee).push(priced_ticket(ts.last(), fee))
    }
}

pub open spec fn priced_screen(s: JsonV, has_eticket: bool) -> JsonV {
    match s.get("ticket_list"@) {
        Some(JsonV::Array(ts)) => s.set(
            "ticket_list"@,
            JsonV::Array(priced_tickets(ts, fee_for(s, has_eticket))),
        ),
        _ => s,
    }
}

pub open spec fn priced_screens(ss: Seq<JsonV>, has_eticket: bool) -> Seq<JsonV>
    decreases ss.len(),
{
    if ss.len() == 0 {
        seq![]
    } else {
        priced_screens(ss.drop_last(), has_eticket).push(priced_screen(ss.last(), has_eticket))
    }
}

/// Every ticket price plus its screen's fee stays within `i64`.
pub open spec fn fees_fit(ss: Seq<JsonV>, has_eticket: bool) -> bool {
    forall|i: int|
        0 <= i < ss.len() ==> match #[trigger] ss[i].get("ticket_list"@) {
            Some(JsonV::Array(ts)) => forall|j: int|
                0 <= j < ts.len() ==> match #[trigger] ts[j].at("price"@).as_i64() {
                    Some(p) => i64::MIN <= p + fee_for(ss[i], has_eticket) <= i64::MAX,
                    None => true,
                },
            _ => true,
        }
}

pub open spec fn has_eticket_of(d: JsonV) -> bool {
    match d.get("has_eticket"@) {
        Some(v) => match v.as_bool() {
            Some(b) => b,
            None => false,
        },
        None => false,
    }
}

/// The response with every ticket price raised by its screen's express fee.
pub open spec fn express_fee_spec(res: JsonV) -> JsonV {
    let r1 = touch(res, "data"@);
    let d = r1.at("data"@);
    if d is Object {
        match d.get("screen_list"@) {
            Some(JsonV::Array(ss)) => r1.set(
                "data"@,
                d.set("screen_list"@, JsonV::Array(priced_screens(ss, has_eticket_of(d)))),
            ),
            _ => r1,
        }
    } else {
        r1
    }
}

/// The express-fee step can run on `res` without panicking.
pub open spec fn express_fee_ok(res: JsonV) -> bool {
    &&& touchable(res)
    &&& (res.at("data"@) matches JsonV::Object(_) ==> match res.at("data"@).get("screen_list"@) {
        Some(JsonV::Array(ss)) => fees_fit(ss, has_eticket_of(res.at("data"@))),
        _ => true,
    })
}

fn fee_for_exec(s: &Json, has_eticket: bool) -> (r: i64)
    ensures
        r == fee_for(s@, has_eticket),
{
    if !has_eticket {
        match s.get("express_fee") {
            Some(v) => match v.as_i64() {
                Some(f) => if f >= 0 {
                    f
                } else {
                    0
                },
                None => 0,
            },
            None => 0,
        }
    } else {
        0
    }
}

fn price_tickets_exec(ts: &Vec<Json>, fee: i64) -> (r: Vec<Json>)
    requires
        forall|j: int|
            0 <= j < ts@.len() ==> match #[trigger] ts@[j]@.at("price"@).as_i64() {
                Some(p) => i64::MIN <= p + fee <= i64::MAX,
                None => true,
            },
    ensures
        items_view(r@) == priced_tickets(items_view(ts@), fee as int),
{
    proof {
        lemma_items_view(ts@);
    }
    let mut out: Vec<Json> = Vec::new();
    let mut i: usize = 0;
    while i < ts.len()
        invariant
            i <= ts.len(),
            items_view(ts@).len() == ts@.len(),
            forall|k: int| 0 <= k < ts@.len() ==> #[trigger] items_view(ts@)[k] == ts@[k]@,
            forall|j: int|
                0 <= j < ts@.len() ==> match #[trigger] ts@[j]@.at("price"@).as_i64() {
                    Some(p) => i64::MIN <= p + fee <= i64::MAX,
                    None => true,
                },
            items_view(out@) == priced_tickets(items_view(ts@).take(i as int), fee as int),
        decreases ts.len() - i,
    {
        let mut t = ts[i].deep_clone();
        let price = match t.get("price") {
            Some(v) => v.as_i64(),
            None => None,
        };
        assert(price == ts@[i as int]@.at("price"@).as_i64());
        match price {
            Some(p) => {
                t.set("price", Json::from_i64(p + fee));
            },
            None => {},
        }
        let ghost prev = out@;
        out.push(t);
        proof {
            assert(out@.drop_last() =~= prev);
            let pre = items_view(ts@).take(i as int);
            let post = items_view(ts@).take(i + 1);
            assert(post.drop_last() =~= pre);
        }
        i = i + 1;
    }
    assert(items_view(ts@).take(ts.len() as int) =~= items_view(ts@));
    out
}

fn price_screen_exec(s: &Json, has_eticket: bool) -> (r: Json)
    requires
        match s@.get("ticket_list"@) {
            Some(JsonV::Array(ts)) => forall|j: int|
                0 <= j < ts.len() ==> match #[trigger] ts[j].at("price"@).as_i64() {
                    Some(p) => i64::MIN <= p + fee_for(s@, has_eticket) <= i64::MAX,
                    None => true,
                },
            _ => true,
        },
    ensures
        r@ == priced_screen(s@, has_eticket),
{
    let fee = fee_for_exec(s, has_eticket);
    match s.get("ticket_list") {
        Some(Json::Array(ts)) => {
            proof {
                lemma_items_view(ts@);
                assert forall|j: int| 0 <= j < ts@.len() implies match #[trigger] ts@[j]@.at(
                    "price"@,
                ).as_i64() {
                    Some(p) => i64::MIN <= p + fee <= i64::MAX,
                    None => true,
                } by {
                    assert(items_view(ts@)[j] == ts@[j]@);
                }
            }
            let priced = price_tickets_exec(ts, fee);
            let mut r = s.deep_clone();
            r.set("ticket_list", Json::Array(priced));
            r
        },
        _ => s.deep_clone(),
    }
}

fn price_screens_exec(ss: &Vec<Json>, has_eticket: bool) -> (r: Vec<Json>)
    requires
        fees_fit(items_view(ss@), has_eticket),
    ensures
        items_view(r@) == priced_screens(items_view(ss@), has_eticket),
{
    proof {
        lemma_items_view(ss@);
    }
    let mut out: Vec<Json> = Vec::new();
    let mut i: usize = 0;
    while i < ss.len()
        invariant
            i <= ss.len(),
            items_view(ss@).len() == ss@.len(),
            forall|k: int| 0 <= k < ss@.len() ==> #[trigger] items_view(ss@)[k] == ss@[k]@,
            fees_fit(items_view(ss@), has_eticket),
            items_view(out@) == priced_screens(items_view(ss@).take(i as int), has_eticket),
        decreases ss.len() - i,
    {
        assert(items_view(ss@)[i as int] == ss@[i as int]@);
        let p = price_screen_exec(&ss[i], has_eticket);
        let ghost prev = out@;
        out.push(p);
        proof {
            assert(out@.drop_last() =~= prev);
            let pre = items_view(ss@).take(i as int);
            let post = items_view(ss@).take(i + 1);
            assert(post.drop_last() =~= pre);
        }
        i = i + 1;
    }
    assert(items_view(ss@).take(ss.len() as int) =~= items_view(ss@));
    out
}

/// Raises every ticket price by its screen's express fee (see `express_fee_spec`).
pub fn apply_express_fee(res: &mut Json)
    requires
        express_fee_ok(old(res)@),
    ensures
        final(res)@ == express_fee_spec(old(res)@),
{
    let ghost r0 = res@;
    touch_exec(res, "data");
    assert(res@.at("data"@) == r0.at("data"@)) by {
        if r0 is Object && r0.has("data"@) {
        } else if r0 is Object {
            match r0 {
                JsonV::Object(m) => crate::json::law_get_after_set(m, "data"@, JsonV::Null),
                _ => {},
            }
        } else {
            reveal_with_fuel(crate::json::obj_get, 2);
        }
    }
    let data = match res.get("data") {
        Some(d) => d.deep_clone(),
        None => Json::Null,
    };
    match &data {
        Json::Object(_) => {
            let has_eticket = match data.get("has_eticket") {
                Some(v) => match v.as_bool() {
                    Some(b) => b,
                    None => false,
                },
                None => false,
            };
            match data.get("screen_list") {
                Some(Json::Array(ss)) => {
                    let priced = price_screens_exec(ss, has_eticket);
                    let mut d2 = data.deep_clone();
                    d2.set("screen_list", Json::Array(priced));
                    res.set("data", d2);
                },
                _ => {},
            }
        },
        _ => {},
    }
}

fn is_touchable(v: &Json) -> (b: bool)
    ensures
        b == touchable(v@),
{
    match v {
        Json::Null => true,
        Json::Object(_) => true,
        _ => false,
    }
}

fn at_copy(v: &Json, key: &str) -> (r: Json)
    ensures
        r@ == v@.at(key@),
{
    match v.get(key) {
        Some(x) => x.deep_clone(),
        None => Json::Null,
    }
}

proof fn lemma_touch_at(v: JsonV, key: Seq<char>)
    requires
        touchable(v),
    ensures
        touch(v, key).at(key) == v.at(key),
        touch(v, key).has(key),
{
    match v {
        JsonV::Object(m) => {
            if !v.has(key) {
                crate::json::law_get_after_set(m, key, JsonV::Null);
            }
        },
        _ => {
            reveal_with_fuel(crate::json::obj_get, 2);
        },
    }
}

/// Whether `ensure_screen_list` can run on `res`: indexing a value that is
/// neither an object nor null for writing would panic.
pub open spec fn ensure_screen_list_ok(res: JsonV) -> bool {
    res.at("data"@).at("screen_list"@).as_array() is Some || touchable(res)
}

/// When the project has linked goods, `data.screen_list` becomes an empty
/// array if it is not an array (and `data` is an object).
pub open spec fn ensure_screen_list_spec(res: JsonV) -> JsonV {
    if res.at("data"@).at("screen_list"@).as_array() is None {
        let r1 = touch(res, "data"@);
        let d = r1.at("data"@);
        if d is Object {
            r1.set("data"@, d.set("screen_list"@, JsonV::Array(seq![])))
        } else {
            r1
        }
    } else {
        res
    }
}

pub fn can_ensure_screen_list(res: &Json) -> (b: bool)
    ensures
        b == ensure_screen_list_ok(res@),
{
    let d = at_copy(res, "data");
    is_array_at(&d, "screen_list") || is_touchable(res)
}

/// Makes `data.screen_list` an array (see `ensure_screen_list_spec`).
pub fn ensure_screen_list(res: &mut Json)
    requires
        ensure_screen_list_ok(old(res)@),
    ensures
        final(res)@ == ensure_screen_list_spec(old(res)@),
{
    let d = at_copy(res, "data");
    if !is_array_at(&d, "screen_list") {
        proof {
            lemma_touch_at(res@, "data"@);
        }
        touch_exec(res, "data");
        let mut d1 = at_copy(res, "data");
        match d1 {
            Json::Object(_) => {
                d1.set("screen_list", Json::Array(Vec::new()));
                proof {
                    assert(items_view(Seq::<Json>::empty()) =~= Seq::<JsonV>::empty());
                }
                res.set("data", d1);
            },
            _ => {},
        }
    }
}

/// A spec of linked goods, tagged with the goods' item id and its link id.
pub open spec fn linked_spec(spec: JsonV, item_id: JsonV, link_id: Seq<char>) -> JsonV {
    if spec is Object {
        spec.set("project_id"@, item_id).set("link_id"@, JsonV::Str(link_id))
    } else {
        spec
    }
}

pub open spec fn linked_specs(specs: Seq<JsonV>, item_id: JsonV, link_id: Seq<char>) -> Seq<JsonV>
    decreases specs.len(),
{
    if specs.len() == 0 {
        seq![]
    } else {
        linked_specs(specs.drop_last(), item_id, link_id).push(
            linked_spec(specs.last(), item_id, link_id),
        )
    }
}

/// Whether `add_linked_specs` can run: indexing a value that is neither an
/// object nor null for writing would panic.
pub open spec fn add_linked_specs_ok(res: JsonV, detail: JsonV) -> bool {
    detail.at("data"@).at("specs_list"@).as_array() is Some ==> touchable(res) && touchable(
        res.at("data"@),
    )
}

/// The specs of one linked item appended to `data.screen_list`, each tagged with
/// the item's `item_id` (as `project_id`) and its `link_id`.
pub open spec fn add_linked_specs_spec(res: JsonV, detail: JsonV, link_id: Seq<char>) -> JsonV {
    match detail.at("data"@).at("specs_list"@).as_array() {
        None => res,
        Some(specs) => {
            let r1 = touch(res, "data"@);
            let d1 = touch(r1.at("data"@), "screen_list"@);
            match d1.at("screen_list"@) {
                JsonV::Array(list) => r1.set(
                    "data"@,
                    d1.set(
                        "screen_list"@,
                        JsonV::Array(
                            list + linked_specs(specs, detail.at("data"@).at("item_id"@), link_id),
                        ),
                    ),
                ),
                _ => r1.set("data"@, d1),
            }
        },
    }
}

pub fn can_add_linked_specs(res: &Json, detail: &Json) -> (b: bool)
    ensures
        b == add_linked_specs_ok(res@, detail@),
{
    let dd = at_copy(detail, "data");
    if is_array_at(&dd, "specs_list") {
        let d = at_copy(res, "data");
        is_touchable(res) && is_touchable(&d)
    } else {
        true
    }
}

fn linked_specs_exec(specs: &Vec<Json>, item_id: &Json, link_id: &str) -> (r: Vec<Json>)
    ensures
        items_view(r@) == linked_specs(items_view(specs@), item_id@, link_id@),
{
    proof {
        lemma_items_view(specs@);
    }
    let mut out: Vec<Json> = Vec::new();
    let mut i: usize = 0;
    while i < specs.len()
        invariant
            i <= specs.len(),
            items_view(specs@).len() == specs@.len(),
            forall|k: int| 0 <= k < specs@.len() ==> #[trigger] items_view(specs@)[k] == specs@[k]@,
            items_view(out@) == linked_specs(items_view(specs@).take(i as int), item_id@, link_id@),
        decreases specs.len() - i,
    {
        let mut sp = specs[i].deep_clone();
        match sp {
            Json::Object(_) => {
                sp.set("project_id", item_id.deep_clone());
                sp.set("link_id", Json::from_str(link_id));
            },
            _ => {},
        }
        let ghost prev = out@;
        out.push(sp);
        proof {
            assert(out@.drop_last() =~= prev);
            let pre = items_view(specs@).take(i as int);
            let post = items_view(specs@).take(i + 1);
            assert(post.drop_last() =~= pre);
        }
        i = i + 1;
    }
    assert(items_view(specs@).take(specs.len() as int) =~= items_view(specs@));
    out
}

fn append_items(a: Vec<Json>, b: Vec<Json>) -> (r: Vec<Json>)
    ensures
        items_view(r@) == items_view(a@) + items_view(b@),
{
    proof {
        lemma_items_view(a@);
        lemma_items_view(b@);
    }
    let mut a = a;
    let mut b = b;
    let ghost a0 = a@;
    let ghost b0 = b@;
    a.append(&mut b);
    proof {
        lemma_items_view(a@);
        assert(a@ == a0 + b0);
        assert(items_view(a@) =~= items_view(a0) + items_view(b0));
    }
    a
}

/// Appends the specs of one linked item (see `add_linked_specs_spec`).
pub fn add_linked_specs(res: &mut Json, detail: &Json, link_id: &str)
    requires
        add_linked_specs_ok(old(res)@, detail@),
    ensures
        final(res)@ == add_linked_specs_spec(old(res)@, detail@, link_id@),
{
    let dd = at_copy(detail, "data");
    let item_id = at_copy(&dd, "item_id");
    match dd.get("specs_list") {
        Some(Json::Array(specs)) => {
            proof {
                lemma_touch_at(res@, "data"@);
            }
            touch_exec(res, "data");
            let mut d1 = at_copy(res, "data");
            proof {
                lemma_touch_at(d1@, "screen_list"@);
            }
            touch_exec(&mut d1, "screen_list");
            let current = at_copy(&d1, "screen_list");
            match current {
                Json::Array(list) => {
                    let tagged = linked_specs_exec(specs, &item_id, link_id);
                    let all = append_items(list, tagged);
                    d1.set("screen_list", Json::Array(all));
                    res.set("data", d1);
                },
                _ => {
                    res.set("data", d1);
                },
            }
        },
        _ => {},
    }
}

/// Checks that raising prices by express fees cannot overflow (and so cannot panic).
#[verifier::loop_isolation(false)]
pub fn can_apply_express_fee(res: &Json) -> (b: bool)
    ensures
        b == express_fee_ok(res@),
{
    if !is_touchable(res) {
        return false;
    }
    let d = at_copy(res, "data");
    match &d {
        Json::Object(_) => {},
        _ => {
            return true;
        },
    }
    let has_eticket = match d.get("has_eticket") {
        Some(v) => match v.as_bool() {
            Some(b) => b,
            None => false,
        },
        None => false,
    };
    match d.get("screen_list") {
        Some(Json::Array(ss)) => {
            proof {
                lemma_items_view(ss@);
            }
            let mut i: usize = 0;
            while i < ss.len()
                invariant
                    i <= ss.len(),
                    items_view(ss@).len() == ss@.len(),
                    forall|k: int| 0 <= k < ss@.len() ==> #[trigger] items_view(ss@)[k] == ss@[k]@,
                    forall|k: int|
                        0 <= k < i ==> match #[trigger] items_view(ss@)[k].get("ticket_list"@) {
                            Some(JsonV::Array(ts)) => forall|j: int|
                                0 <= j < ts.len() ==> match #[trigger] ts[j].at("price"@).as_i64() {
                                    Some(p) => i64::MIN <= p + fee_for(items_view(ss@)[k], has_eticket)
                                        <= i64::MAX,
                                    None => true,
                                },
                            _ => true,
                        },
                decreases ss.len() - i,
            {
                let fee = fee_for_exec(&ss[i], has_eticket);
                match ss[i].get("ticket_list") {
                    Some(Json::Array(ts)) => {
                        proof {
                            lemma_items_view(ts@);
                        }
                        let mut j: usize = 0;
                        while j < ts.len()
                            invariant
                                j <= ts.len(),
                                items_view(ts@).len() == ts@.len(),
                                forall|k: int|
                                    0 <= k < ts@.len() ==> #[trigger] items_view(ts@)[k] == ts@[k]@,
                                forall|k: int|
                                    0 <= k < j ==> match #[trigger] items_view(ts@)[k].at(
                                        "price"@,
                                    ).as_i64() {
                                        Some(p) => i64::MIN <= p + fee <= i64::MAX,
                                        None => true,
                                    },
                            decreases ts.len() - j,
                        {
                            let price = match ts[j].get("price") {
                                Some(v) => v.as_i64(),
                                None => None,
                            };
                            assert(price == items_view(ts@)[j as int].at("price"@).as_i64());
                            match price {
                                Some(p) => {
                                    if (fee > 0 && p > i64::MAX - fee) || (fee < 0 && p < i64::MIN
                                        - fee) {
                                        proof {
                                            let sv = items_view(ss@)[i as int];
                                            assert(sv == ss@[i as int]@);
                                            assert(sv.get("ticket_list"@) == Some(JsonV::Array(items_view(ts@))));
                                            assert(items_view(ts@)[j as int] == ts@[j as int]@);
                                            let tsv = items_view(ts@);
                                            assert(tsv[j as int].at("price"@).as_i64() == Some(p));
                                            assert(fee == fee_for(sv, has_eticket));
                                            if fees_fit(items_view(ss@), has_eticket) {
                                                assert(match items_view(ss@)[i as int].get("ticket_list"@) {
                                                    Some(JsonV::Array(ts2)) => forall|j2: int|
                                                        0 <= j2 < ts2.len() ==> match #[trigger] ts2[j2].at("price"@).as_i64() {
                                                            Some(p2) => i64::MIN <= p2 + fee_for(items_view(ss@)[i as int], has_eticket) <= i64::MAX,
                                                            None => true,
                                                        },
                                                    _ => true,
                                                });
                                                assert(false);
                                            }
                                        }
                                        return false;
                                    }
                                },
                                None => {},
                            }
                            j = j + 1;
                        }
                    },
                    _ => {},
                }
                i = i + 1;
            }
            true
        },
        _ => true,
    }
}

/// The upstream items id: the project id as a number when it is one, else as a string.
pub open spec fn items_id_spec(id: Seq<char>) -> JsonV {
    match parse_u64_spec(id) {
        Some(n) => JsonV::Number(crate::json::NumberV::PosInt(n)),
        None => JsonV::Str(id),
    }
}

pub fn items_id(id: &str) -> (r: Json)
    ensures
        r@ == items_id_spec(id@),
{
    let cs = chars_of(id);
    match parse_u64_chars(&cs) {
        Some(n) => Json::Number(crate::json::JsonNumber::PosInt(n)),
        None => Json::from_str(id),
    }
}

/// Why a project-detail response was rejected.
#[derive(Debug, Clone, Copy, PartialEq, Eq, Structural)]
pub enum ProjectError {
    /// The response says `success: false`.
    SuccessFalse,
    /// The response carries this non-zero error code.
    Code(i64),
    /// The response has no screens to choose from.
    NoScreenList,
}

pub open spec fn error_code_of(res: JsonV) -> Option<i64> {
    if res.at("errno"@).as_i64() is Some {
        res.at("errno"@).as_i64()
    } else {
        res.at("code"@).as_i64()
    }
}

/// How a response of the newer project-detail API is judged: rejected when it
/// says `success: false` or carries a non-zero `errno` (else `code`); otherwise
/// normalized and accepted when it has screens, with `code` and `errno`
/// defaulting to 0.
pub open spec fn new_project_response_spec(res: JsonV, id: Seq<char>) -> Result<JsonV, ProjectError> {
    if res.at("success"@).as_bool() == Some(false) {
        Err(ProjectError::SuccessFalse)
    } else if error_code_of(res) is Some && error_code_of(res)->0 != 0 {
        Err(ProjectError::Code(error_code_of(res)->0))
    } else {
        let r = normalize_spec(res, id);
        if r.at("data"@).at("screen_list"@).as_array() matches Some(l) && l.len() > 0 {
            Ok(r.set_default("code"@, int_json(0)).set_default("errno"@, int_json(0)))
        } else {
            Err(ProjectError::NoScreenList)
        }
    }
}

pub fn check_new_project_response(res: Json, id: &str) -> (r: Result<Json, ProjectError>)
    ensures
        match new_project_response_spec(res@, id@) {
            Ok(v) => r matches Ok(j) && j@ == v,
            Err(e) => r == Err::<Json, ProjectError>(e),
        },
{
    let success = at_copy(&res, "success");
    if success.as_bool() == Some(false) {
        return Err(ProjectError::SuccessFalse);
    }
    let errno = at_copy(&res, "errno");
    let code = at_copy(&res, "code");
    let e = match errno.as_i64() {
        Some(x) => Some(x),
        None => code.as_i64(),
    };
    match e {
        Some(x) => {
            if x != 0 {
                return Err(ProjectError::Code(x));
            }
        },
        None => {},
    }
    let mut res = res;
    normalize_project_data(&mut res, id);
    let d = at_copy(&res, "data");
    let non_empty = match d.get("screen_list") {
        Some(Json::Array(l)) => {
            proof {
                lemma_items_view(l@);
            }
            l.len() > 0
        },
        _ => false,
    };
    if non_empty {
        res.set_default("code", Json::from_i64(0));
        res.set_default("errno", Json::from_i64(0));
        Ok(res)
    } else {
        Err(ProjectError::NoScreenList)
    }
}

/// The link id of a linked-goods item: its `id` as a string, or an integer `id` in decimal.
pub open spec fn link_id_of(item: JsonV) -> Option<Seq<char>> {
    if item.at("id"@).as_str() is Some {
        item.at("id"@).as_str()
    } else if item.at("id"@).as_i64() is Some {
        Some(signed_decimal_spec(item.at("id"@).as_i64()->0 as int))
    } else {
        None
    }
}

pub open spec fn link_ids_of(items: Seq<JsonV>) -> Seq<Seq<char>>
    decreases items.len(),
{
    if items.len() == 0 {
        seq![]
    } else {
        let rest = link_ids_of(items.drop_last());
        match link_id_of(items.last()) {
            Some(l) => rest.push(l),
            None => rest,
        }
    }
}

/// The linked goods of a project: `None` unless `data.list` is a non-empty
/// array; otherwise the link ids of its items that have one.
pub open spec fn linked_goods_spec(link_res: JsonV) -> Option<Seq<Seq<char>>> {
    match link_res.at("data"@).at("list"@).as_array() {
        Some(items) => if items.len() > 0 {
            Some(link_ids_of(items))
        } else {
            None
        },
        None => None,
    }
}

pub fn linked_goods_ids(link_res: &Json) -> (r: Option<Vec<String>>)
    ensures
        match linked_goods_spec(link_res@) {
            Some(ids) => r matches Some(v) && v@.map_values(|s: String| s@) == ids,
            None => r is None,
        },
{
    let d = at_copy(link_res, "data");
    let list = at_copy(&d, "list");
    match &list {
        Json::Array(items) => {
            proof {
                lemma_items_view(items@);
            }
            if items.len() == 0 {
                return None;
            }
            let mut out: Vec<String> = Vec::new();
            let mut i: usize = 0;
            while i < items.len()
                invariant
                    i <= items.len(),
                    items_view(items@).len() == items@.len(),
                    forall|k: int| 0 <= k < items@.len() ==> #[trigger] items_view(items@)[k] == items@[k]@,
                    out@.map_values(|s: String| s@) == link_ids_of(items_view(items@).take(i as int)),
                decreases items.len() - i,
            {
                let ghost pre = items_view(items@).take(i as int);
                let ghost post = items_view(items@).take(i + 1);
                assert(post.drop_last() =~= pre);
                assert(post.last() == items@[i as int]@);
                let idv = at_copy(&items[i], "id");
                let ghost prev = out@;
                match idv.as_str() {
                    Some(s) => {
                        out.push(s.to_string());
                    },
                    None => match idv.as_i64() {
                        Some(n) => {
                            let cs = i64_to_chars(n);
                            out.push(string_from_chars(&cs));
                        },
                        None => {},
                    },
                }
                assert(out@.map_values(|s: String| s@) =~= link_ids_of(post)) by {
                    if out@.len() > prev.len() {
                        assert(out@.drop_last() == prev);
                        assert(out@.map_values(|s: String| s@).drop_last() =~= prev.map_values(|s: String| s@));
                    } else {
                        assert(out@ == prev);
                    }
                }
                i = i + 1;
            }
            assert(items_view(items@).take(items.len() as int) =~= items_view(items@));
            Some(out)
        },
        _ => None,
    }
}

} // verus!
