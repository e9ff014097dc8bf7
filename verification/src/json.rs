//! A JSON document model with the lookups and updates that the project
//! responses need. Objects keep their members in order; a lookup finds the
//! first member with the key, and an update replaces that member (or appends).
use vstd::prelude::*;
use crate::text::str_eq;

verus! {

broadcast use {vstd::string::group_string_axioms, vstd::std_specs::vec::group_vec_axioms};

/// A JSON number as `serde_json` holds it: a non-negative integer, a negative
/// integer, or a floating-point number kept as its printed form.
pub enum JsonNumber {
    PosInt(u64),
    NegInt(i64),
    Float(String),
}

/// A JSON value.
pub enum Json {
    Null,
    Bool(bool),
    Number(JsonNumber),
    Str(String),
    Array(Vec<Json>),
    Object(Vec<(String, Json)>),
}

/// The mathematical value of a `JsonNumber`.
pub enum NumberV {
    PosInt(u64),
    NegInt(i64),
    Float(Seq<char>),
}

/// The mathematical value of a `Json` document.
pub enum JsonV {
    Null,
    Bool(bool),
    Number(NumberV),
    Str(Seq<char>),
    Array(Seq<JsonV>),
    Object(Seq<(Seq<char>, JsonV)>),
}

pub open spec fn number_view(n: JsonNumber) -> NumberV {
    match n {
        JsonNumber::PosInt(u) => NumberV::PosInt(u),
        JsonNumber::NegInt(i) => NumberV::NegInt(i),
        JsonNumber::Float(s) => NumberV::Float(s@),
    }
}

pub open spec fn json_view(j: Json) -> JsonV
    decreases j,
{
    match j {
        Json::Null => JsonV::Null,
        Json::Bool(b) => JsonV::Bool(b),
        Json::Number(n) => JsonV::Number(number_view(n)),
        Json::Str(s) => JsonV::Str(s@),
        Json::Array(items) => JsonV::Array(items_view(items@)),
        Json::Object(m) => JsonV::Object(members_view(m@)),
    }
}

pub open spec fn items_view(s: Seq<Json>) -> Seq<JsonV>
    decreases s,
{
    if s.len() == 0 {
        seq![]
    } else {
        items_view(s.drop_last()).push(json_view(s.last()))
    }
}

pub open spec fn members_view(s: Seq<(String, Json)>) -> Seq<(Seq<char>, JsonV)>
    decreases s,
{
    if s.len() == 0 {
        seq![]
    } else {
        members_view(s.drop_last()).push((s.last().0@, json_view(s.last().1)))
    }
}

impl View for Json {
    type V = JsonV;

    open spec fn view(&self) -> JsonV {
        json_view(*self)
    }
}

pub proof fn lemma_items_view(s: Seq<Json>)
    ensures
        items_view(s).len() == s.len(),
        forall|i: int| 0 <= i < s.len() ==> #[trigger] items_view(s)[i] == json_view(s[i]),
    decreases s.len(),
{
    if s.len() > 0 {
        lemma_items_view(s.drop_last());
    }
}

pub proof fn lemma_members_view(s: Seq<(String, Json)>)
    ensures
        members_view(s).len() == s.len(),
        forall|i: int|
            0 <= i < s.len() ==> #[trigger] members_view(s)[i] == (s[i].0@, json_view(s[i].1)),
    decreases s.len(),
{
    if s.len() > 0 {
        lemma_members_view(s.drop_last());
    }
}

/// The value of the first member named `key`.
pub open spec fn obj_get(m: Seq<(Seq<char>, JsonV)>, key: Seq<char>) -> Option<JsonV>
    decreases m.len(),
{
    if m.len() == 0 {
        None
    } else if m[0].0 == key {
        Some(m[0].1)
    } else {
        obj_get(m.drop_first(), key)
    }
}

/// `m` with the first member named `key` set to `v`, or `v` appended under `key`.
pub open spec fn obj_insert(m: Seq<(Seq<char>, JsonV)>, key: Seq<char>, v: JsonV) -> Seq<
    (Seq<char>, JsonV),
>
    decreases m.len(),
{
    if m.len() == 0 {
        seq![(key, v)]
    } else if m[0].0 == key {
        seq![(m[0].0, v)] + m.drop_first()
    } else {
        seq![m[0]] + obj_insert(m.drop_first(), key, v)
    }
}

impl JsonV {
    /// The member `key` of an object (`Value::get`).
    pub open spec fn get(self, key: Seq<char>) -> Option<JsonV> {
        match self {
            JsonV::Object(m) => obj_get(m, key),
            _ => None,
        }
    }

    /// `self[key]`: the member, or `null` when absent or not an object.
    pub open spec fn at(self, key: Seq<char>) -> JsonV {
        match self.get(key) {
            Some(v) => v,
            None => JsonV::Null,
        }
    }

    /// Whether an object has a member `key`.
    pub open spec fn has(self, key: Seq<char>) -> bool {
        self.get(key) is Some
    }

    /// The object with member `key` set to `v`; other values are left as they are.
    pub open spec fn set(self, key: Seq<char>, v: JsonV) -> JsonV {
        match self {
            JsonV::Object(m) => JsonV::Object(obj_insert(m, key, v)),
            _ => self,
        }
    }

    /// The object with member `key` set to `v` only if it has no member `key` (`entry(..).or_insert(v)`).
    pub open spec fn set_default(self, key: Seq<char>, v: JsonV) -> JsonV {
        if self.has(key) {
            self
        } else {
            self.set(key, v)
        }
    }

    pub open spec fn as_i64(self) -> Option<i64> {
        match self {
            JsonV::Number(NumberV::PosInt(u)) => if u <= i64::MAX {
                Some(u as i64)
            } else {
                None
            },
            JsonV::Number(NumberV::NegInt(i)) => Some(i),
            _ => None,
        }
    }

    pub open spec fn as_u64(self) -> Option<u64> {
        match self {
            JsonV::Number(NumberV::PosInt(u)) => Some(u),
            _ => None,
        }
    }

    pub open spec fn as_bool(self) -> Option<bool> {
        match self {
            JsonV::Bool(b) => Some(b),
            _ => None,
        }
    }

    pub open spec fn as_str(self) -> Option<Seq<char>> {
        match self {
            JsonV::Str(s) => Some(s),
            _ => None,
        }
    }

    pub open spec fn as_array(self) -> Option<Seq<JsonV>> {
        match self {
            JsonV::Array(a) => Some(a),
            _ => None,
        }
    }
}

/// `v.as_i64().unwrap_or(d)`.
pub open spec fn int_or(v: JsonV, d: i64) -> i64 {
    match v.as_i64() {
        Some(x) => x,
        None => d,
    }
}

/// `v.as_str().unwrap_or("")`.
pub open spec fn str_or_empty(v: JsonV) -> Seq<char> {
    match v.as_str() {
        Some(s) => s,
        None => seq![],
    }
}

/// The `code` member of an API reply, `-1` where it has no integer code.
pub open spec fn reply_code(res: JsonV) -> i64 {
    int_or(res.at("code"@), -1i64)
}

/// The JSON integer for `n`, as `serde_json::json!(n)` builds it.
pub open spec fn int_json(n: i64) -> JsonV {
    if n < 0 {
        JsonV::Number(NumberV::NegInt(n))
    } else {
        JsonV::Number(NumberV::PosInt(n as u64))
    }
}

impl Json {
    /// The member `key` of an object.
    pub fn get(&self, key: &str) -> (r: Option<&Json>)
        ensures
            match r {
                Some(v) => self@.get(key@) == Some(v@),
                None => self@.get(key@) is None,
            },
    {
        match self {
            Json::Object(m) => {
                proof {
                    lemma_members_view(m@);
                }
                let ghost mv = members_view(m@);
                let mut i: usize = 0;
                assert(mv.skip(0) =~= mv);
                while i < m.len()
                    invariant
                        i <= m.len(),
                        *self == Json::Object(*m),
                        mv == members_view(m@),
                        mv.len() == m@.len(),
                        forall|k: int| 0 <= k < m@.len() ==> #[trigger] mv[k] == (m@[k].0@, json_view(m@[k].1)),
                        obj_get(mv, key@) == obj_get(mv.skip(i as int), key@),
                    decreases m.len() - i,
                {
                    assert(mv.skip(i as int).drop_first() =~= mv.skip(i + 1));
                    assert(mv.skip(i as int)[0] == mv[i as int]);
                    if str_eq(m[i].0.as_str(), key) {
                        assert(mv.skip(i as int)[0].0 == key@);
                        assert(obj_get(mv.skip(i as int), key@) == Some(json_view(m@[i as int].1)));
                        assert(self@ == JsonV::Object(mv));
                        return Some(&m[i].1);
                    }
                    i = i + 1;
                }
                None
            },
            _ => None,
        }
    }

    /// Whether an object has a member `key`.
    pub fn contains_key(&self, key: &str) -> (b: bool)
        ensures
            b == self@.has(key@),
    {
        match self.get(key) {
            Some(_) => true,
            None => false,
        }
    }

    /// The integer value, if it fits in `i64` (`Value::as_i64`).
    pub fn as_i64(&self) -> (r: Option<i64>)
        ensures
            r == self@.as_i64(),
    {
        match self {
            Json::Number(JsonNumber::PosInt(u)) => {
                if *u <= 9_223_372_036_854_775_807u64 {
                    Some(*u as i64)
                } else {
                    None
                }
            },
            Json::Number(JsonNumber::NegInt(i)) => Some(*i),
            _ => None,
        }
    }

    /// The non-negative integer value (`Value::as_u64`).
    pub fn as_u64(&self) -> (r: Option<u64>)
        ensures
            r == self@.as_u64(),
    {
        match self {
            Json::Number(JsonNumber::PosInt(u)) => Some(*u),
            _ => None,
        }
    }

    /// The boolean value (`Value::as_bool`).
    pub fn as_bool(&self) -> (r: Option<bool>)
        ensures
            r == self@.as_bool(),
    {
        match self {
            Json::Bool(b) => Some(*b),
            _ => None,
        }
    }

    /// The string value (`Value::as_str`).
    pub fn as_str(&self) -> (r: Option<&str>)
        ensures
            match r {
                Some(s) => self@.as_str() == Some(s@),
                None => self@.as_str() is None,
            },
    {
        match self {
            Json::Str(s) => Some(s.as_str()),
            _ => None,
        }
    }

    /// The items of an array (`Value::as_array`).
    pub fn as_array(&self) -> (r: Option<&Vec<Json>>)
        ensures
            match r {
                Some(v) => self@ == JsonV::Array(items_view(v@)) && self@.as_array() == Some(
                    items_view(v@),
                ),
                None => self@.as_array() is None,
            },
    {
        match self {
            Json::Array(items) => Some(items),
            _ => None,
        }
    }

    /// `self[key].as_i64()`.
    pub fn member_i64(&self, key: &str) -> (r: Option<i64>)
        ensures
            r == self@.at(key@).as_i64(),
    {
        match self.get(key) {
            Some(v) => v.as_i64(),
            None => None,
        }
    }

    /// `self[key].as_str()`.
    pub fn member_str(&self, key: &str) -> (r: Option<&str>)
        ensures
            match r {
                Some(s) => self@.at(key@).as_str() == Some(s@),
                None => self@.at(key@).as_str() is None,
            },
    {
        match self.get(key) {
            Some(v) => v.as_str(),
            None => None,
        }
    }

    /// `self[key].as_str().unwrap_or("")`.
    pub fn member_str_or_empty(&self, key: &str) -> (r: &str)
        ensures
            r@ == str_or_empty(self@.at(key@)),
    {
        match self.member_str(key) {
            Some(s) => s,
            None => {
                proof {
                    reveal_strlit("");
                }
                ""
            },
        }
    }

    /// A copy of this value.
    pub fn deep_clone(&self) -> (r: Json)
        ensures
            r@ == self@,
        decreases self,
    {
        match self {
            Json::Null => Json::Null,
            Json::Bool(b) => Json::Bool(*b),
            Json::Number(JsonNumber::PosInt(u)) => Json::Number(JsonNumber::PosInt(*u)),
            Json::Number(JsonNumber::NegInt(i)) => Json::Number(JsonNumber::NegInt(*i)),
            Json::Number(JsonNumber::Float(s)) => Json::Number(JsonNumber::Float(s.clone())),
            Json::Str(s) => Json::Str(s.clone()),
            Json::Array(items) => {
                let mut out: Vec<Json> = Vec::new();
                let mut i: usize = 0;
                while i < items.len()
                    invariant
                        i <= items.len(),
                        *self == Json::Array(*items),
                        items_view(out@) == items_view(items@.take(i as int)),
                    decreases items.len() - i,
                {
                    assert(decreases_to!(*self => (*self)->Array_0));
                    assert(decreases_to!(*items => items@[i as int]));
                    assert(decreases_to!(*self => items@[i as int]));
                    let c = items[i].deep_clone();
                    let ghost prev = out@;
                    out.push(c);
                    i = i + 1;
                    assert(out@.drop_last() =~= prev);
                    assert(items@.take(i as int).drop_last() =~= items@.take(i - 1));
                }
                assert(items@.take(items.len() as int) =~= items@);
                Json::Array(out)
            },
            Json::Object(m) => {
                let mut out: Vec<(String, Json)> = Vec::new();
                let mut i: usize = 0;
                while i < m.len()
                    invariant
                        i <= m.len(),
                        *self == Json::Object(*m),
                        members_view(out@) == members_view(m@.take(i as int)),
                    decreases m.len() - i,
                {
                    assert(decreases_to!(*self => (*self)->Object_0));
                    assert(decreases_to!(*m => m@[i as int]));
                    assert(decreases_to!(m@[i as int] => m@[i as int].1));
                    assert(decreases_to!(*self => m@[i as int].1));
                    let c = m[i].1.deep_clone();
                    let k = m[i].0.clone();
                    let ghost prev = out@;
                    out.push((k, c));
                    i = i + 1;
                    assert(out@.drop_last() =~= prev);
                    assert(m@.take(i as int).drop_last() =~= m@.take(i - 1));
                }
                assert(m@.take(m.len() as int) =~= m@);
                Json::Object(out)
            },
        }
    }

    /// The JSON integer for `n`, as `serde_json::json!(n)` builds it.
    pub fn from_i64(n: i64) -> (r: Json)
        ensures
            r@ == int_json(n),
    {
        if n < 0 {
            Json::Number(JsonNumber::NegInt(n))
        } else {
            Json::Number(JsonNumber::PosInt(n as u64))
        }
    }

    /// A JSON string holding `s`.
    pub fn from_str(s: &str) -> (r: Json)
        ensures
            r@ == JsonV::Str(s@),
    {
        Json::Str(s.to_string())
    }

    /// Sets member `key` of an object to `v` (`map.insert(key, v)`); other values are left as they are.
    pub fn set(&mut self, key: &str, v: Json)
        ensures
            final(self)@ == old(self)@.set(key@, v@),
    {
        match self {
            Json::Object(m) => {
                obj_insert_exec(m, key, v);
            },
            _ => {},
        }
    }

    /// Sets member `key` of an object to `v` unless it has one (`entry(key).or_insert(v)`).
    pub fn set_default(&mut self, key: &str, v: Json)
        ensures
            final(self)@ == old(self)@.set_default(key@, v@),
    {
        if !self.contains_key(key) {
            self.set(key, v);
        }
    }
}

/// Appends member `key: v` to a list of object members.
pub fn push_member(m: &mut Vec<(String, Json)>, key: &str, v: Json)
    ensures
        members_view(final(m)@) == members_view(old(m)@).push((key@, v@)),
{
    let ghost prev = m@;
    m.push((key.to_string(), v));
    assert(m@.drop_last() =~= prev);
}

fn obj_insert_exec(m: &mut Vec<(String, Json)>, key: &str, v: Json)
    ensures
        members_view(final(m)@) == obj_insert(members_view(old(m)@), key@, v@),
{
    let ghost m0 = m@;
    proof {
        lemma_members_view(m0);
    }
    let mut i: usize = 0;
    while i < m.len() && !str_eq(m[i].0.as_str(), key)
        invariant
            i <= m.len(),
            m@ == m0,
            forall|j: int| 0 <= j < i ==> #[trigger] m0[j].0@ != key@,
        decreases m.len() - i,
    {
        i = i + 1;
    }
    assert forall|j: int| 0 <= j < i implies #[trigger] members_view(m0)[j].0 != key@ by {
        assert(m0[j].0@ != key@);
    }
    if i < m.len() {
        let old_key = m[i].0.clone();
        m.set(i, (old_key, v));
        proof {
            lemma_members_view(m@);
            lemma_obj_insert_at(members_view(m0), key@, v@, i as int);
            assert(members_view(m@) =~= members_view(m0).update(
                i as int,
                (members_view(m0)[i as int].0, v@),
            ));
        }
    } else {
        proof {
            lemma_obj_insert_end(members_view(m0), key@, v@);
        }
        m.push((key.to_string(), v));
        proof {
            lemma_members_view(m@);
            assert(members_view(m@) =~= members_view(m0).push((key@, v@)));
        }
    }
}

proof fn lemma_obj_insert_at(m: Seq<(Seq<char>, JsonV)>, key: Seq<char>, v: JsonV, i: int)
    requires
        0 <= i < m.len(),
        m[i].0 == key,
        forall|j: int| 0 <= j < i ==> #[trigger] m[j].0 != key,
    ensures
        obj_insert(m, key, v) == m.update(i, (m[i].0, v)),
    decreases i,
{
    if i == 0 {
        assert(obj_insert(m, key, v) =~= m.update(i, (m[i].0, v)));
    } else {
        lemma_obj_insert_at(m.drop_first(), key, v, i - 1);
        assert(obj_insert(m, key, v) =~= m.update(i, (m[i].0, v)));
    }
}

proof fn lemma_obj_insert_end(m: Seq<(Seq<char>, JsonV)>, key: Seq<char>, v: JsonV)
    requires
        forall|j: int| 0 <= j < m.len() ==> #[trigger] m[j].0 != key,
    ensures
        obj_insert(m, key, v) == m.push((key, v)),
    decreases m.len(),
{
    if m.len() > 0 {
        lemma_obj_insert_end(m.drop_first(), key, v);
        assert(obj_insert(m, key, v) =~= m.push((key, v)));
    }
}

/// Looking up the key just set gives the value set.
pub proof fn law_get_after_set(m: Seq<(Seq<char>, JsonV)>, key: Seq<char>, v: JsonV)
    ensures
        obj_get(obj_insert(m, key, v), key) == Some(v),
    decreases m.len(),
{
    if m.len() > 0 && m[0].0 != key {
        law_get_after_set(m.drop_first(), key, v);
        assert(obj_insert(m, key, v).drop_first() =~= obj_insert(m.drop_first(), key, v));
    }
}

/// Setting one key leaves the others as they were.
pub proof fn law_set_leaves_other_members(
    m: Seq<(Seq<char>, JsonV)>,
    key: Seq<char>,
    v: JsonV,
    other: Seq<char>,
)
    requires
        other != key,
    ensures
        obj_get(obj_insert(m, key, v), other) == obj_get(m, other),
    decreases m.len(),
{
    if m.len() > 0 {
        let ins = obj_insert(m, key, v);
        if m[0].0 == key {
            assert(ins == seq![(m[0].0, v)] + m.drop_first());
            assert(ins[0].0 == m[0].0);
            assert(ins.drop_first() =~= m.drop_first());
            assert(obj_get(ins, other) == obj_get(ins.drop_first(), other));
            assert(obj_get(m, other) == obj_get(m.drop_first(), other));
        } else {
            law_set_leaves_other_members(m.drop_first(), key, v, other);
            assert(ins == seq![m[0]] + obj_insert(m.drop_first(), key, v));
            assert(ins[0] == m[0]);
            assert(ins.drop_first() =~= obj_insert(m.drop_first(), key, v));
            if m[0].0 != other {
                assert(obj_get(ins, other) == obj_get(ins.drop_first(), other));
                assert(obj_get(m, other) == obj_get(m.drop_first(), other));
            } else {
                assert(obj_get(ins, other) == Some(m[0].1));
                assert(obj_get(m, other) == Some(m[0].1));
            }
        }
    } else {
        let ins = obj_insert(m, key, v);
        assert(ins == seq![(key, v)]);
        assert(ins.drop_first() =~= Seq::<(Seq<char>, JsonV)>::empty());
        assert(obj_get(ins, other) == obj_get(ins.drop_first(), other));
    }
}

/// Writing back the value a member already has changes nothing.
pub proof fn law_set_to_current_value(m: Seq<(Seq<char>, JsonV)>, key: Seq<char>, v: JsonV)
    requires
        obj_get(m, key) == Some(v),
    ensures
        obj_insert(m, key, v) == m,
    decreases m.len(),
{
    if m[0].0 != key {
        law_set_to_current_value(m.drop_first(), key, v);
    }
    assert(obj_insert(m, key, v) =~= m);
}

/// On a JSON object, reading a member just set gives the value set, and
/// setting a member leaves every other member as it was.
pub proof fn law_object_read_after_write(o: JsonV, key: Seq<char>, v: JsonV, other: Seq<char>)
    requires
        o is Object,
        other != key,
    ensures
        o.set(key, v).get(key) == Some(v),
        o.set(key, v).get(other) == o.get(other),
{
    law_get_after_set(o->Object_0, key, v);
    law_set_leaves_other_members(o->Object_0, key, v, other);
}

/// On any JSON value, setting a member to the value it already has changes
/// nothing.
pub proof fn law_object_set_current(o: JsonV, key: Seq<char>, v: JsonV)
    requires
        o.get(key) == Some(v),
    ensures
        o.set(key, v) == o,
{
    law_set_to_current_value(o->Object_0, key, v);
}

/// Setting a member of an object: the result is an object, the member holds
/// the value set, and every other member is as it was.
pub proof fn lemma_object_set(o: JsonV, key: Seq<char>, v: JsonV)
    requires
        o is Object,
    ensures
        o.set(key, v) is Object,
        o.set(key, v).get(key) == Some(v),
        forall|k: Seq<char>| k != key ==> #[trigger] o.set(key, v).get(k) == o.get(k),
{
    law_get_after_set(o->Object_0, key, v);
    assert forall|k: Seq<char>| k != key implies #[trigger] o.set(key, v).get(k) == o.get(k) by {
        law_set_leaves_other_members(o->Object_0, key, v, k);
    }
}

} // verus!
