//! Signing in by QR code, the saved accounts, and cookie export files.
use vstd::prelude::*;
use crate::json::{Json, JsonNumber, JsonV, NumberV, number_view, reply_code, int_or, str_or_empty, items_view, lemma_items_view};
use crate::text::{chars_of, str_eq, string_from_chars, find_char, first_index, lemma_first_index, subrange_chars, trim_chars, trim_spec};

verus! {

broadcast use {vstd::string::group_string_axioms, vstd::std_specs::vec::group_vec_axioms};

/// How often the login state is polled before giving up.
pub const LOGIN_POLL_ATTEMPTS: u32 = 120;

/// Pause between two polls of the login state.
pub const LOGIN_POLL_INTERVAL_MS: u64 = 1000;

/// Why a QR-code login could not go on.
#[derive(Clone, Copy, Debug, PartialEq, Eq, Structural)]
pub enum LoginError {
    /// The `qrcode/generate` reply did not carry code 0.
    QrCodeUnavailable,
}

/// The `qrcode/generate` reply carries both the login URL and the key.
pub open spec fn qrcode_fields_present(res: JsonV) -> bool {
    &&& res.at("data"@).at("url"@).as_str() is Some
    &&& res.at("data"@).at("qrcode_key"@).as_str() is Some
}

/// The login URL and the QR-code key of a `qrcode/generate` reply: given
/// exactly when the reply's code is 0.
pub fn qrcode_from_reply(res: &Json) -> (r: Result<(String, String), LoginError>)
    requires
        reply_code(res@) == 0 ==> qrcode_fields_present(res@),
    ensures
        r is Ok <==> reply_code(res@) == 0,
        r is Err ==> r == Err::<(String, String), LoginError>(LoginError::QrCodeUnavailable),
        r matches Ok((url, key)) ==> {
            &&& Some(url@) == res@.at("data"@).at("url"@).as_str()
            &&& Some(key@) == res@.at("data"@).at("qrcode_key"@).as_str()
        },
{
    let code = match res.member_i64("code") {
        Some(c) => c,
        None => -1,
    };
    if code != 0 {
        return Err(LoginError::QrCodeUnavailable);
    }
    match res.get("data") {
        Some(data) => {
            let url = data.member_str("url");
            let key = data.member_str("qrcode_key");
            match (url, key) {
                (Some(u), Some(k)) => Ok((u.to_string(), k.to_string())),
                _ => Err(LoginError::QrCodeUnavailable),
            }
        },
        None => Err(LoginError::QrCodeUnavailable),
    }
}

/// What one poll of the login state tells.
#[derive(Clone, Copy, Debug, PartialEq, Eq, Structural)]
pub enum LoginPoll {
    /// The user confirmed: the reply's cookies are the session.
    Confirmed,
    /// Not scanned or not confirmed yet, or no state in the reply: poll again.
    Pending,
    /// Any other state: the login failed.
    Failed,
}

/// `data.code` 0 confirms, 86101 (not scanned) and 86090 (scanned, not
/// confirmed) keep waiting, as does a reply without a code; other codes fail.
pub open spec fn login_poll_spec(res: JsonV) -> LoginPoll {
    match res.at("data"@).at("code"@).as_i64() {
        Some(c) => if c == 0 {
            LoginPoll::Confirmed
        } else if c == 86101 || c == 86090 {
            LoginPoll::Pending
        } else {
            LoginPoll::Failed
        },
        None => LoginPoll::Pending,
    }
}

pub fn login_poll_step(res: &Json) -> (r: LoginPoll)
    ensures
        r == login_poll_spec(res@),
{
    let code = match res.get("data") {
        Some(data) => data.member_i64("code"),
        None => None,
    };
    match code {
        Some(c) => {
            if c == 0 {
                LoginPoll::Confirmed
            } else if c == 86101 || c == 86090 {
                LoginPoll::Pending
            } else {
                LoginPoll::Failed
            }
        },
        None => LoginPoll::Pending,
    }
}

/// Whether another poll follows after `polls_done` polls came back pending:
/// the login is polled at most `LOGIN_POLL_ATTEMPTS` times, then it times out.
pub fn login_poll_again(polls_done: u32) -> (b: bool)
    ensures
        b == (polls_done < LOGIN_POLL_ATTEMPTS),
{
    polls_done < LOGIN_POLL_ATTEMPTS
}

/// A lower-case hex digit.
pub open spec fn hex_digit_lower(d: u32) -> char {
    if d < 10 {
        ((48 + d) as u8) as char
    } else {
        ((87 + d) as u8) as char
    }
}

/// How one character stands inside a JSON string: `"` and `\` and the control
/// characters below U+0020 are escaped (`\b`, `\t`, `\n`, `\f`, `\r`, the
/// others as `\u00XX` in lower-case hex); every other character stands as it is.
pub open spec fn json_escape_char(c: char) -> Seq<char> {
    if c == '"' {
        seq!['\\', '"']
    } else if c == '\\' {
        seq!['\\', '\\']
    } else if c == '\u{8}' {
        seq!['\\', 'b']
    } else if c == '\t' {
        seq!['\\', 't']
    } else if c == '\n' {
        seq!['\\', 'n']
    } else if c == '\u{c}' {
        seq!['\\', 'f']
    } else if c == '\r' {
        seq!['\\', 'r']
    } else if (c as u32) < 0x20 {
        seq!['\\', 'u', '0', '0', hex_digit_lower((c as u32) / 16), hex_digit_lower((c as u32) % 16)]
    } else {
        seq![c]
    }
}

/// The characters of `s` as they stand inside a JSON string.
pub open spec fn json_escaped(s: Seq<char>) -> Seq<char>
    decreases s.len(),
{
    if s.len() == 0 {
        seq![]
    } else {
        json_escape_char(s[0]) + json_escaped(s.drop_first())
    }
}

/// The JSON string literal of `s`.
pub open spec fn json_quoted(s: Seq<char>) -> Seq<char> {
    seq!['"'] + json_escaped(s) + seq!['"']
}

/// The string literals of `items`, separated by commas.
pub open spec fn json_list_items(items: Seq<Seq<char>>) -> Seq<char>
    decreases items.len(),
{
    if items.len() == 0 {
        seq![]
    } else if items.len() == 1 {
        json_quoted(items[0])
    } else {
        json_quoted(items[0]) + seq![','] + json_list_items(items.drop_first())
    }
}

/// The compact JSON text of a list of strings: `[`, the string literals
/// separated by commas, `]`.
pub open spec fn json_string_list(items: Seq<Seq<char>>) -> Seq<char> {
    seq!['['] + json_list_items(items) + seq![']']
}

/// Calls `serde_json::to_string` on a list of strings. Its contract claims that
/// it returns `json_string_list` of exactly that list, as the crate's compact
/// formatter and escape table write it. It claims success too: in the
/// crate's source, serialising a sequence of strings fails only when the writer
/// fails, and `to_string` writes into a `Vec<u8>`, which does not fail.
#[verifier::external_body]
fn to_json_string_list(items: &Vec<String>) -> (r: Option<String>)
    ensures
        r is Some,
        r matches Some(s) ==> s@ == json_string_list(items.deep_view()),
{
    serde_json::to_string(items).ok()
}

/// The session a confirmed login yields: the `Set-Cookie` lines of the reply,
/// kept as a JSON list of strings.
pub fn login_session_text(set_cookie_lines: &Vec<String>) -> (r: Option<String>)
    ensures
        r is Some,
        r matches Some(s) ==> s@ == json_string_list(set_cookie_lines.deep_view()),
{
    to_json_string_list(set_cookie_lines)
}

// ---------------------------------------------------------------------------
// Saved accounts.
// ---------------------------------------------------------------------------

/// A signed-in account as it is saved. `coins` is the balance as the API
/// reported it (a JSON number).
pub struct Account {
    pub uid: String,
    pub name: String,
    pub face: String,
    pub cookies: Vec<String>,
    pub level: i32,
    pub is_vip: bool,
    pub coins: JsonNumber,
}

/// Why an account could not be added.
#[derive(Clone, Copy, Debug, PartialEq, Eq, Structural)]
pub enum AccountError {
    /// The user-info reply did not carry code 0.
    InvalidCookies,
}

/// `money.as_f64().unwrap_or(0.0)`: any JSON number as it stands, else zero.
pub open spec fn coins_spec(v: JsonV) -> NumberV {
    match v {
        JsonV::Number(n) => n,
        _ => NumberV::PosInt(0),
    }
}

fn copy_number(n: &JsonNumber) -> (r: JsonNumber)
    ensures
        number_view(r) == number_view(*n),
{
    match n {
        JsonNumber::PosInt(u) => JsonNumber::PosInt(*u),
        JsonNumber::NegInt(i) => JsonNumber::NegInt(*i),
        JsonNumber::Float(t) => JsonNumber::Float(t.clone()),
    }
}

fn coins_of(v: Option<&Json>) -> (r: JsonNumber)
    ensures
        number_view(r) == coins_spec(
            match v {
                Some(j) => j@,
                None => JsonV::Null,
            },
        ),
{
    match v {
        Some(Json::Number(n)) => copy_number(n),
        _ => JsonNumber::PosInt(0),
    }
}

/// The account described by a user-info reply (`nav`): given exactly when the
/// reply's code is 0. `mid_text` is `data.mid` as JSON text, which becomes
/// the account's uid; `level` is `data.level_info.current_level` (0 when
/// absent) truncated to `i32`; `is_vip` says whether `data.vipStatus` is 1.
pub fn account_from_user_info(res: &Json, mid_text: String, cookies: Vec<String>) -> (r: Result<
    Account,
    AccountError,
>)
    ensures
        r is Ok <==> reply_code(res@) == 0,
        r is Err ==> r == Err::<Account, AccountError>(AccountError::InvalidCookies),
        r matches Ok(a) ==> {
            let data = res@.at("data"@);
            &&& a.uid@ == mid_text@
            &&& a.name@ == str_or_empty(data.at("uname"@))
            &&& a.face@ == str_or_empty(data.at("face"@))
            &&& a.cookies@ == cookies@
            &&& a.level == int_or(data.at("level_info"@).at("current_level"@), 0) as i32
            &&& a.is_vip == (int_or(data.at("vipStatus"@), 0) == 1)
            &&& number_view(a.coins) == coins_spec(data.at("money"@))
        },
{
    let code = match res.member_i64("code") {
        Some(c) => c,
        None => -1,
    };
    if code != 0 {
        return Err(AccountError::InvalidCookies);
    }
    match res.get("data") {
        Some(data) => {
            let level_raw: i64 = match data.get("level_info") {
                Some(li) => match li.member_i64("current_level") {
                    Some(l) => l,
                    None => 0,
                },
                None => 0,
            };
            let vip: i64 = match data.member_i64("vipStatus") {
                Some(v) => v,
                None => 0,
            };
            Ok(
                Account {
                    uid: mid_text,
                    name: data.member_str_or_empty("uname").to_string(),
                    face: data.member_str_or_empty("face").to_string(),
                    cookies,
                    level: level_raw as i32,
                    is_vip: vip == 1,
                    coins: coins_of(data.get("money")),
                },
            )
        },
        None => {
            proof {
                reveal_strlit("");
            }
            Ok(
                Account {
                    uid: mid_text,
                    name: "".to_string(),
                    face: "".to_string(),
                    cookies,
                    level: 0,
                    is_vip: false,
                    coins: JsonNumber::PosInt(0),
                },
            )
        },
    }
}

/// A copy of a list of strings.
pub fn copy_strings(v: &Vec<String>) -> (r: Vec<String>)
    ensures
        r@ == v@,
{
    let mut out: Vec<String> = Vec::new();
    let mut i: usize = 0;
    while i < v.len()
        invariant
            i <= v.len(),
            out@ == v@.take(i as int),
        decreases v.len() - i,
    {
        out.push(v[i].clone());
        i = i + 1;
        assert(out@ =~= v@.take(i as int));
    }
    assert(v@.take(v.len() as int) =~= v@);
    out
}

impl Account {
    /// A copy of this account.
    pub fn copied(&self) -> (r: Self)
        ensures
            r.uid@ == self.uid@,
            r.name@ == self.name@,
            r.face@ == self.face@,
            r.cookies@ == self.cookies@,
            r.level == self.level,
            r.is_vip == self.is_vip,
            number_view(r.coins) == number_view(self.coins),
    {
        Account {
            uid: self.uid.clone(),
            name: self.name.clone(),
            face: self.face.clone(),
            cookies: copy_strings(&self.cookies),
            level: self.level,
            is_vip: self.is_vip,
            coins: copy_number(&self.coins),
        }
    }
}

/// What an account list is taken to hold: each account by its fields' views.
pub open spec fn account_view(a: Account) -> (Seq<char>, Seq<char>, Seq<char>, Seq<String>, i32, bool, NumberV) {
    (a.uid@, a.name@, a.face@, a.cookies@, a.level, a.is_vip, number_view(a.coins))
}

pub open spec fn accounts_view(s: Seq<Account>) -> Seq<(Seq<char>, Seq<char>, Seq<char>, Seq<String>, i32, bool, NumberV)> {
    s.map_values(|a: Account| account_view(a))
}

/// The accounts whose uid differs from `uid`, in order.
pub open spec fn accounts_without(s: Seq<Account>, uid: Seq<char>) -> Seq<Account>
    decreases s.len(),
{
    if s.len() == 0 {
        seq![]
    } else if s.last().uid@ == uid {
        accounts_without(s.drop_last(), uid)
    } else {
        accounts_without(s.drop_last(), uid).push(s.last())
    }
}

fn retain_other_uids(accounts: &Vec<Account>, uid: &str) -> (r: Vec<Account>)
    ensures
        accounts_view(r@) == accounts_view(accounts_without(accounts@, uid@)),
{
    let mut out: Vec<Account> = Vec::new();
    let mut i: usize = 0;
    while i < accounts.len()
        invariant
            i <= accounts.len(),
            accounts_view(out@) == accounts_view(accounts_without(accounts@.take(i as int), uid@)),
        decreases accounts.len() - i,
    {
        proof {
            assert(accounts@.take(i + 1).drop_last() =~= accounts@.take(i as int));
        }
        let a = &accounts[i];
        if !str_eq(a.uid.as_str(), uid) {
            let ghost prev = out@;
            out.push(a.copied());
            proof {
                assert(accounts_view(out@) =~= accounts_view(prev).push(account_view(accounts@[i as int])));
                assert(accounts_view(accounts_without(accounts@.take(i + 1), uid@)) =~= accounts_view(
                    accounts_without(accounts@.take(i as int), uid@),
                ).push(account_view(accounts@[i as int])));
            }
        }
        i = i + 1;
    }
    assert(accounts@.take(accounts.len() as int) =~= accounts@);
    out
}

/// Saving an account replaces the saved accounts with its uid and puts it last.
pub fn save_account(accounts: &Vec<Account>, account: Account) -> (r: Vec<Account>)
    ensures
        accounts_view(r@) == accounts_view(accounts_without(accounts@, account.uid@)).push(
            account_view(account),
        ),
{
    let ghost a0 = account;
    let mut out = retain_other_uids(accounts, account.uid.as_str());
    let ghost prev = out@;
    out.push(account);
    assert(accounts_view(out@) =~= accounts_view(prev).push(account_view(a0)));
    out
}

/// Removing an account drops every saved account with that uid.
pub fn remove_account(accounts: &Vec<Account>, uid: &str) -> (r: Vec<Account>)
    ensures
        accounts_view(r@) == accounts_view(accounts_without(accounts@, uid@)),
{
    retain_other_uids(accounts, uid)
}

proof fn lemma_accounts_without(s: Seq<Account>, uid: Seq<char>)
    ensures
        forall|i: int| 0 <= i < accounts_without(s, uid).len() ==> (#[trigger] accounts_without(s, uid)[i]).uid@ != uid,
        forall|i: int| 0 <= i < s.len() && s[i].uid@ != uid ==> accounts_without(s, uid).contains(#[trigger] s[i]),
    decreases s.len(),
{
    if s.len() > 0 {
        lemma_accounts_without(s.drop_last(), uid);
        let r = accounts_without(s.drop_last(), uid);
        assert forall|i: int| 0 <= i < s.len() && s[i].uid@ != uid implies accounts_without(s, uid).contains(#[trigger] s[i]) by {
            if i < s.len() - 1 {
                assert(s[i] == s.drop_last()[i]);
                let k = choose|k: int| 0 <= k < r.len() && r[k] == s.drop_last()[i];
                if s.last().uid@ != uid {
                    assert(accounts_without(s, uid)[k] == s[i]);
                }
            } else {
                assert(accounts_without(s, uid).last() == s[i]);
            }
        }
    }
}

/// After saving an account, the list holds exactly one account with its uid,
/// that account, last; every other saved account stays.
pub proof fn law_saved_account_unique(accounts: Seq<Account>, account: Account)
    ensures
        ({
            let r = accounts_without(accounts, account.uid@).push(account);
            &&& r.last() == account
            &&& forall|i: int| 0 <= i < r.len() - 1 ==> (#[trigger] r[i]).uid@ != account.uid@
            &&& forall|i: int|
                0 <= i < accounts.len() && accounts[i].uid@ != account.uid@ ==> r.contains(
                    #[trigger] accounts[i],
                )
        }),
{
    lemma_accounts_without(accounts, account.uid@);
    let w = accounts_without(accounts, account.uid@);
    let r = w.push(account);
    assert forall|i: int| 0 <= i < r.len() - 1 implies (#[trigger] r[i]).uid@ != account.uid@ by {
        assert(r[i] == w[i]);
    }
    assert forall|i: int| 0 <= i < accounts.len() && accounts[i].uid@ != account.uid@ implies r.contains(
        #[trigger] accounts[i],
    ) by {
        assert(w.contains(accounts[i]));
        let k = choose|k: int| 0 <= k < w.len() && w[k] == accounts[i];
        assert(r[k] == accounts[i]);
    }
}

/// After removing an account, no saved account has its uid, and every other stays.
pub proof fn law_removed_account_gone(accounts: Seq<Account>, uid: Seq<char>)
    ensures
        forall|i: int|
            0 <= i < accounts_without(accounts, uid).len() ==> (#[trigger] accounts_without(
                accounts,
                uid,
            )[i]).uid@ != uid,
        forall|i: int|
            0 <= i < accounts.len() && accounts[i].uid@ != uid ==> accounts_without(
                accounts,
                uid,
            ).contains(#[trigger] accounts[i]),
{
    lemma_accounts_without(accounts, uid);
}

/// The position of the first saved account with `uid`.
pub fn find_account(accounts: &Vec<Account>, uid: &str) -> (r: Option<usize>)
    ensures
        match r {
            Some(i) => i < accounts@.len() && accounts@[i as int].uid@ == uid@ && forall|j: int|
                0 <= j < i ==> #[trigger] accounts@[j].uid@ != uid@,
            None => forall|j: int| 0 <= j < accounts@.len() ==> #[trigger] accounts@[j].uid@ != uid@,
        },
{
    let mut i: usize = 0;
    while i < accounts.len()
        invariant
            i <= accounts.len(),
            forall|j: int| 0 <= j < i ==> #[trigger] accounts@[j].uid@ != uid@,
        decreases accounts.len() - i,
    {
        if str_eq(accounts[i].uid.as_str(), uid) {
            return Some(i);
        }
        i = i + 1;
    }
    None
}

// ---------------------------------------------------------------------------
// Cookie export files.
// ---------------------------------------------------------------------------

/// The name and value that a stored cookie line exports: its part before the
/// first `;`, split at its first `=`, both sides trimmed; nothing without `=`.
pub open spec fn cookie_pair_spec(line: Seq<char>) -> Option<(Seq<char>, Seq<char>)> {
    let first = line.take(first_index(line, ';'));
    let i = first_index(first, '=');
    if i < first.len() {
        Some((trim_spec(first.take(i)), trim_spec(first.skip(i + 1))))
    } else {
        None
    }
}

pub fn cookie_pair(line: &str) -> (r: Option<(String, String)>)
    ensures
        match cookie_pair_spec(line@) {
            Some((n, v)) => r matches Some((rn, rv)) && rn@ == n && rv@ == v,
            None => r is None,
        },
{
    let chars = chars_of(line);
    let semi = find_char(&chars, ';');
    proof {
        lemma_first_index(chars@, ';');
    }
    let first = subrange_chars(&chars, 0, semi);
    assert(first@ =~= line@.take(first_index(line@, ';')));
    let eq = find_char(&first, '=');
    proof {
        lemma_first_index(first@, '=');
    }
    if eq < first.len() {
        let name = subrange_chars(&first, 0, eq);
        let value = subrange_chars(&first, eq + 1, first.len());
        assert(name@ =~= first@.take(eq as int));
        assert(value@ =~= first@.skip(eq + 1));
        let n = trim_chars(&name);
        let v = trim_chars(&value);
        Some((string_from_chars(&n), string_from_chars(&v)))
    } else {
        None
    }
}

/// The exported pairs of a list of cookie lines, lines without `=` skipped.
pub open spec fn cookie_pairs_spec(lines: Seq<Seq<char>>) -> Seq<(Seq<char>, Seq<char>)>
    decreases lines.len(),
{
    if lines.len() == 0 {
        seq![]
    } else {
        let r = cookie_pairs_spec(lines.drop_last());
        match cookie_pair_spec(lines.last()) {
            Some(p) => r.push(p),
            None => r,
        }
    }
}

/// The JSON object `{"name": .., "value": ..}` of one exported cookie.
pub open spec fn cookie_item_json(p: (Seq<char>, Seq<char>)) -> JsonV {
    JsonV::Object(seq![("name"@, JsonV::Str(p.0)), ("value"@, JsonV::Str(p.1))])
}

/// The export document: `{"_default": {"1": {"key": "cookie", "value": [items]}}}`.
pub open spec fn cookie_export_spec(pairs: Seq<(Seq<char>, Seq<char>)>) -> JsonV {
    JsonV::Object(
        seq![
            ("_default"@, JsonV::Object(
                seq![
                    ("1"@, JsonV::Object(
                        seq![
                            ("key"@, JsonV::Str("cookie"@)),
                            ("value"@, JsonV::Array(pairs.map_values(|p: (Seq<char>, Seq<char>)| cookie_item_json(p)))),
                        ],
                    )),
                ],
            )),
        ],
    )
}

fn cookie_item(name: String, value: String) -> (r: Json)
    ensures
        r@ == cookie_item_json((name@, value@)),
{
    let ghost nv = name@;
    let ghost vv = value@;
    let mut m: Vec<(String, Json)> = Vec::new();
    m.push(("name".to_string(), Json::Str(name)));
    m.push(("value".to_string(), Json::Str(value)));
    proof {
        reveal_with_fuel(crate::json::members_view, 3);
        assert(m@.drop_last().drop_last() =~= Seq::<(String, Json)>::empty());
        assert(crate::json::members_view(m@) =~= seq![("name"@, JsonV::Str(nv)), ("value"@, JsonV::Str(vv))]);
    }
    Json::Object(m)
}

/// The document that exports the cookies of one account.
pub fn cookie_export_document(cookies: &Vec<String>) -> (r: Json)
    ensures
        r@ == cookie_export_spec(cookie_pairs_spec(cookies.deep_view())),
{
    let mut items: Vec<Json> = Vec::new();
    let ghost lines = cookies.deep_view();
    let mut i: usize = 0;
    while i < cookies.len()
        invariant
            i <= cookies.len(),
            lines == cookies.deep_view(),
            lines.len() == cookies.len(),
            items_view(items@) == cookie_pairs_spec(lines.take(i as int)).map_values(
                |p: (Seq<char>, Seq<char>)| cookie_item_json(p),
            ),
        decreases cookies.len() - i,
    {
        proof {
            assert(lines.take(i + 1).drop_last() =~= lines.take(i as int));
            assert(lines.take(i + 1).last() == cookies@[i as int]@);
        }
        match cookie_pair(cookies[i].as_str()) {
            Some((n, v)) => {
                let ghost prev = items@;
                items.push(cookie_item(n, v));
                proof {
                    assert(items@.drop_last() =~= prev);
                    assert(items_view(items@) =~= cookie_pairs_spec(lines.take(i + 1)).map_values(
                        |p: (Seq<char>, Seq<char>)| cookie_item_json(p),
                    ));
                }
            },
            None => {},
        }
        i = i + 1;
    }
    assert(lines.take(cookies.len() as int) =~= lines);
    let ghost iv = items_view(items@);
    let mut one: Vec<(String, Json)> = Vec::new();
    one.push(("key".to_string(), Json::Str("cookie".to_string())));
    one.push(("value".to_string(), Json::Array(items)));
    let mut by_index: Vec<(String, Json)> = Vec::new();
    let ghost onev = one@;
    by_index.push(("1".to_string(), Json::Object(one)));
    let mut doc: Vec<(String, Json)> = Vec::new();
    let ghost biv = by_index@;
    doc.push(("_default".to_string(), Json::Object(by_index)));
    proof {
        reveal_with_fuel(crate::json::members_view, 3);
        assert(onev.drop_last().drop_last() =~= Seq::<(String, Json)>::empty());
        assert(biv.drop_last() =~= Seq::<(String, Json)>::empty());
        assert(doc@.drop_last() =~= Seq::<(String, Json)>::empty());
        assert(crate::json::members_view(onev) =~= seq![("key"@, JsonV::Str("cookie"@)), ("value"@, JsonV::Array(iv))]);
        assert(crate::json::members_view(biv) =~= seq![("1"@, JsonV::Object(crate::json::members_view(onev)))]);
        assert(crate::json::members_view(doc@) =~= seq![("_default"@, JsonV::Object(crate::json::members_view(biv)))]);
    }
    Json::Object(doc)
}

/// Why a cookie export file could not be imported.
#[derive(Clone, Copy, Debug, PartialEq, Eq, Structural)]
pub enum CookieImportError {
    /// The file has no list at `_default.1.value`.
    MissingCookieList,
    /// The list names no cookie.
    NoCookies,
}

/// The cookie line of one exported item, `name=value`, where it has a name;
/// a missing name or value counts as empty.
pub open spec fn import_line_spec(item: JsonV) -> Option<Seq<char>> {
    let name = str_or_empty(item.at("name"@));
    if name.len() == 0 {
        None
    } else {
        Some(name + seq!['='] + str_or_empty(item.at("value"@)))
    }
}

pub open spec fn import_lines_spec(items: Seq<JsonV>) -> Seq<Seq<char>>
    decreases items.len(),
{
    if items.len() == 0 {
        seq![]
    } else {
        let r = import_lines_spec(items.drop_last());
        match import_line_spec(items.last()) {
            Some(l) => r.push(l),
            None => r,
        }
    }
}

/// The list of exported items of a cookie file.
pub open spec fn import_list(doc: JsonV) -> Option<Seq<JsonV>> {
    doc.at("_default"@).at("1"@).at("value"@).as_array()
}

fn import_line(item: &Json) -> (r: Option<String>)
    ensures
        match import_line_spec(item@) {
            Some(l) => r matches Some(s) && s@ == l,
            None => r is None,
        },
{
    let name = item.member_str_or_empty("name");
    let value = item.member_str_or_empty("value");
    if name.is_empty() {
        return None;
    }
    let mut line = chars_of(name);
    line.push('=');
    let v = chars_of(value);
    let mut i: usize = 0;
    let ghost base = line@;
    while i < v.len()
        invariant
            i <= v.len(),
            line@ == base + v@.take(i as int),
        decreases v.len() - i,
    {
        line.push(v[i]);
        i = i + 1;
        assert(line@ =~= base + v@.take(i as int));
    }
    assert(v@.take(v.len() as int) =~= v@);
    Some(string_from_chars(&line))
}

/// The cookie lines of an exported cookie file: one `name=value` line per item
/// with a name, in order. Fails when the file has no item list, or when the
/// list yields no line.
pub fn cookies_from_export(doc: &Json) -> (r: Result<Vec<String>, CookieImportError>)
    ensures
        match import_list(doc@) {
            None => r == Err::<Vec<String>, CookieImportError>(CookieImportError::MissingCookieList),
            Some(items) => if import_lines_spec(items).len() == 0 {
                r == Err::<Vec<String>, CookieImportError>(CookieImportError::NoCookies)
            } else {
                r matches Ok(v) && v.deep_view() == import_lines_spec(items)
            },
        },
{
    let list = match doc.get("_default") {
        Some(d) => match d.get("1") {
            Some(one) => match one.get("value") {
                Some(v) => v.as_array(),
                None => None,
            },
            None => None,
        },
        None => None,
    };
    let items = match list {
        Some(items) => items,
        None => return Err(CookieImportError::MissingCookieList),
    };
    proof {
        lemma_items_view(items@);
    }
    let ghost iv = items_view(items@);
    let mut out: Vec<String> = Vec::new();
    let mut i: usize = 0;
    while i < items.len()
        invariant
            i <= items.len(),
            iv == items_view(items@),
            iv.len() == items@.len(),
            forall|k: int| 0 <= k < items@.len() ==> #[trigger] iv[k] == items@[k]@,
            out.deep_view() == import_lines_spec(iv.take(i as int)),
        decreases items.len() - i,
    {
        proof {
            assert(iv.take(i + 1).drop_last() =~= iv.take(i as int));
            assert(iv.take(i + 1).last() == items@[i as int]@);
        }
        match import_line(&items[i]) {
            Some(l) => {
                let ghost prev = out.deep_view();
                out.push(l);
                proof {
                    assert(out.deep_view() =~= prev.push(out@[out@.len() - 1]@));
                }
            },
            None => {},
        }
        i = i + 1;
    }
    assert(iv.take(items.len() as int) =~= iv);
    if out.len() == 0 {
        Err(CookieImportError::NoCookies)
    } else {
        Ok(out)
    }
}

/// A cookie line that an export keeps whole: `name=value` with a non-empty
/// name free of `=` and `;`, a value free of `;`, and neither padded with
/// whitespace.
pub open spec fn plain_cookie_line(line: Seq<char>, name: Seq<char>, value: Seq<char>) -> bool {
    &&& line == name + seq!['='] + value
    &&& name.len() > 0
    &&& !name.contains('=')
    &&& !name.contains(';')
    &&& !value.contains(';')
    &&& trim_spec(name) == name
    &&& trim_spec(value) == value
}

proof fn lemma_plain_cookie_pair(line: Seq<char>, name: Seq<char>, value: Seq<char>)
    requires
        plain_cookie_line(line, name, value),
    ensures
        cookie_pair_spec(line) == Some((name, value)),
{
    assert forall|j: int| 0 <= j < line.len() implies line[j] != ';' by {
        if j < name.len() {
            assert(line[j] == name[j]);
            if line[j] == ';' {
                assert(name.contains(';'));
            }
        } else if j > name.len() {
            assert(line[j] == value[j - name.len() - 1]);
            if line[j] == ';' {
                assert(value.contains(';'));
            }
        }
    }
    crate::text::lemma_first_index_at(line, ';', line.len() as int);
    let first = line.take(first_index(line, ';'));
    assert(first =~= line);
    assert forall|j: int| 0 <= j < name.len() implies first[j] != '=' by {
        assert(first[j] == name[j]);
        if first[j] == '=' {
            assert(name.contains('='));
        }
    }
    crate::text::lemma_first_index_at(first, '=', name.len() as int);
    assert(first.take(name.len() as int) =~= name);
    assert(first.skip(name.len() as int + 1) =~= value);
}

/// The items of an export document hold one object per exported pair.
proof fn lemma_export_items(pairs: Seq<(Seq<char>, Seq<char>)>)
    ensures
        import_list(cookie_export_spec(pairs)) == Some(
            pairs.map_values(|p: (Seq<char>, Seq<char>)| cookie_item_json(p)),
        ),
{
    let items = pairs.map_values(|p: (Seq<char>, Seq<char>)| cookie_item_json(p));
    let one = JsonV::Object(seq![("key"@, JsonV::Str("cookie"@)), ("value"@, JsonV::Array(items))]);
    let by_index = JsonV::Object(seq![("1"@, one)]);
    let doc = cookie_export_spec(pairs);
    reveal_strlit("key");
    reveal_strlit("value");
    assert(doc.at("_default"@) == by_index);
    assert(by_index.at("1"@) == one);
    assert(seq![("key"@, JsonV::Str("cookie"@)), ("value"@, JsonV::Array(items))].drop_first()[0].0 == "value"@);
    assert("key"@ != "value"@) by {
        assert("key"@.len() != "value"@.len());
    }
    assert(one.at("value"@) == JsonV::Array(items)) by {
        reveal_with_fuel(crate::json::obj_get, 3);
    }
}

proof fn lemma_import_exported_items(pairs: Seq<(Seq<char>, Seq<char>)>)
    requires
        forall|i: int| 0 <= i < pairs.len() ==> (#[trigger] pairs[i]).0.len() > 0,
    ensures
        import_lines_spec(pairs.map_values(|p: (Seq<char>, Seq<char>)| cookie_item_json(p)))
            == pairs.map_values(|p: (Seq<char>, Seq<char>)| p.0 + seq!['='] + p.1),
    decreases pairs.len(),
{
    let items = pairs.map_values(|p: (Seq<char>, Seq<char>)| cookie_item_json(p));
    if pairs.len() > 0 {
        lemma_import_exported_items(pairs.drop_last());
        assert(items.drop_last() =~= pairs.drop_last().map_values(
            |p: (Seq<char>, Seq<char>)| cookie_item_json(p),
        ));
        let p = pairs.last();
        reveal_strlit("name");
        reveal_strlit("value");
        assert("name"@ != "value"@) by {
            assert("name"@.len() != "value"@.len());
        }
        let item = cookie_item_json(p);
        assert(items.last() == item);
        assert(item.at("name"@) == JsonV::Str(p.0));
        assert(seq![("name"@, JsonV::Str(p.0)), ("value"@, JsonV::Str(p.1))].drop_first()[0].0 == "value"@);
        assert(item.at("value"@) == JsonV::Str(p.1)) by {
            reveal_with_fuel(crate::json::obj_get, 3);
        }
        assert(pairs[pairs.len() - 1].0.len() > 0);
        assert(pairs.map_values(|p: (Seq<char>, Seq<char>)| p.0 + seq!['='] + p.1) =~= pairs.drop_last().map_values(
            |p: (Seq<char>, Seq<char>)| p.0 + seq!['='] + p.1,
        ).push(p.0 + seq!['='] + p.1));
    } else {
        assert(pairs.map_values(|p: (Seq<char>, Seq<char>)| p.0 + seq!['='] + p.1) =~= Seq::<Seq<char>>::empty());
    }
}

/// Importing the file that exports plain cookie lines (see `plain_cookie_line`)
/// gives back the same lines.
pub proof fn law_cookie_export_round_trip(
    lines: Seq<Seq<char>>,
    names: Seq<Seq<char>>,
    values: Seq<Seq<char>>,
)
    requires
        names.len() == lines.len(),
        values.len() == lines.len(),
        forall|i: int| 0 <= i < lines.len() ==> plain_cookie_line(#[trigger] lines[i], names[i], values[i]),
    ensures
        import_list(cookie_export_spec(cookie_pairs_spec(lines))) matches Some(items)
            && import_lines_spec(items) == lines,
    decreases lines.len(),
{
    let pairs = cookie_pairs_spec(lines);
    lemma_export_items(pairs);
    lemma_pairs_of_plain_lines(lines, names, values);
    assert forall|i: int| 0 <= i < pairs.len() implies (#[trigger] pairs[i]).0.len() > 0 by {
        assert(pairs[i] == (names[i], values[i]));
        assert(plain_cookie_line(lines[i], names[i], values[i]));
    }
    lemma_import_exported_items(pairs);
    assert(pairs.map_values(|p: (Seq<char>, Seq<char>)| p.0 + seq!['='] + p.1) =~= lines) by {
        assert forall|i: int| 0 <= i < lines.len() implies pairs.map_values(
            |p: (Seq<char>, Seq<char>)| p.0 + seq!['='] + p.1,
        )[i] == lines[i] by {
            assert(pairs[i] == (names[i], values[i]));
            assert(plain_cookie_line(lines[i], names[i], values[i]));
        }
    }
}

proof fn lemma_pairs_of_plain_lines(lines: Seq<Seq<char>>, names: Seq<Seq<char>>, values: Seq<Seq<char>>)
    requires
        names.len() == lines.len(),
        values.len() == lines.len(),
        forall|i: int| 0 <= i < lines.len() ==> plain_cookie_line(#[trigger] lines[i], names[i], values[i]),
    ensures
        cookie_pairs_spec(lines).len() == lines.len(),
        forall|i: int| 0 <= i < lines.len() ==> #[trigger] cookie_pairs_spec(lines)[i] == (names[i], values[i]),
    decreases lines.len(),
{
    if lines.len() > 0 {
        let n = lines.len() - 1;
        assert forall|i: int| 0 <= i < n implies plain_cookie_line(
            #[trigger] lines.drop_last()[i],
            names.drop_last()[i],
            values.drop_last()[i],
        ) by {
            assert(plain_cookie_line(lines[i], names[i], values[i]));
        }
        lemma_pairs_of_plain_lines(lines.drop_last(), names.drop_last(), values.drop_last());
        assert(plain_cookie_line(lines[n], names[n], values[n]));
        lemma_plain_cookie_pair(lines.last(), names[n], values[n]);
        let r = cookie_pairs_spec(lines);
        assert forall|i: int| 0 <= i < lines.len() implies #[trigger] r[i] == (names[i], values[i]) by {
            if i < n {
                assert(r[i] == cookie_pairs_spec(lines.drop_last())[i]);
                assert(cookie_pairs_spec(lines.drop_last())[i] == (names.drop_last()[i], values.drop_last()[i]));
            }
        }
    }
}

/// `s` with every `'` preceded by a backslash.
pub open spec fn escape_quotes_spec(s: Seq<char>) -> Seq<char>
    decreases s.len(),
{
    if s.len() == 0 {
        seq![]
    } else if s.last() == '\'' {
        escape_quotes_spec(s.drop_last()) + seq!['\\', '\'']
    } else {
        escape_quotes_spec(s.drop_last()).push(s.last())
    }
}

/// The statement that sets one stored cookie in a Bilibili page: the cookie's
/// `name=value` part (before the first `;`, trimmed), quotes escaped, for the
/// whole `.bilibili.com` domain; nothing for a line without that part.
pub open spec fn cookie_statement_spec(line: Seq<char>) -> Seq<char> {
    let kv = trim_spec(line.take(first_index(line, ';')));
    if kv.len() == 0 {
        seq![]
    } else {
        "document.cookie = '"@ + escape_quotes_spec(kv) + " ; domain=.bilibili.com; path=/';"@
    }
}

fn cookie_statement(line: &str) -> (r: String)
    ensures
        r@ == cookie_statement_spec(line@),
{
    let chars = chars_of(line);
    let semi = find_char(&chars, ';');
    proof {
        lemma_first_index(chars@, ';');
    }
    let first = subrange_chars(&chars, 0, semi);
    assert(first@ =~= line@.take(first_index(line@, ';')));
    let kv = trim_chars(&first);
    if kv.len() == 0 {
        return String::new();
    }
    let mut out = chars_of("document.cookie = '");
    let ghost base = out@;
    let mut i: usize = 0;
    while i < kv.len()
        invariant
            i <= kv.len(),
            out@ == base + escape_quotes_spec(kv@.take(i as int)),
        decreases kv.len() - i,
    {
        assert(kv@.take(i + 1).drop_last() =~= kv@.take(i as int));
        if kv[i] == '\'' {
            out.push('\\');
            out.push('\'');
            assert(out@ =~= base + escape_quotes_spec(kv@.take(i + 1)));
        } else {
            out.push(kv[i]);
            assert(out@ =~= base + escape_quotes_spec(kv@.take(i + 1)));
        }
        i = i + 1;
    }
    assert(kv@.take(kv.len() as int) =~= kv@);
    let head = string_from_chars(&out);
    crate::text::concat_str(head.as_str(), " ; domain=.bilibili.com; path=/';")
}

/// The script that puts an account's cookies into a Bilibili page: one
/// statement per stored cookie line (empty for lines without a cookie), one
/// per line.
pub fn cookie_injection_script(cookies: &Vec<String>) -> (r: String)
    ensures
        r@ == crate::text::join_spec(
            cookies.deep_view().map_values(|c: Seq<char>| cookie_statement_spec(c)),
            seq!['\n'],
        ),
{
    let ghost lines = cookies.deep_view();
    let mut statements: Vec<String> = Vec::new();
    let mut i: usize = 0;
    while i < cookies.len()
        invariant
            i <= cookies.len(),
            lines == cookies.deep_view(),
            lines.len() == cookies.len(),
            statements.deep_view() == lines.take(i as int).map_values(
                |c: Seq<char>| cookie_statement_spec(c),
            ),
        decreases cookies.len() - i,
    {
        let ghost prev = statements.deep_view();
        statements.push(cookie_statement(cookies[i].as_str()));
        proof {
            assert(lines[i as int] == cookies@[i as int]@);
            assert(statements.deep_view() =~= prev.push(cookie_statement_spec(lines[i as int])));
            assert(lines.take(i + 1).map_values(|c: Seq<char>| cookie_statement_spec(c)) =~= lines.take(
                i as int,
            ).map_values(|c: Seq<char>| cookie_statement_spec(c)).push(cookie_statement_spec(lines[i as int])));
        }
        i = i + 1;
    }
    assert(lines.take(cookies.len() as int) =~= lines);
    assert(statements.deep_view() =~= lines.map_values(|c: Seq<char>| cookie_statement_spec(c)));
    proof {
        reveal_strlit("\n");
        assert("\n"@ =~= seq!['\n']);
    }
    crate::text::join_strings(&statements, "\n")
}

/// The `Cookie` header an account's requests carry: its cookie lines joined by `"; "`.
pub fn cookie_header(cookies: &Vec<String>) -> (r: String)
    ensures
        r@ == crate::text::join_spec(cookies.deep_view(), "; "@),
{
    crate::text::join_strings(cookies, "; ")
}

/// The endpoint listing the buyers an account may name for a project.
pub fn buyer_list_url(project_id: &str) -> (r: String)
    ensures
        r@ == "https://show.bilibili.com/api/ticket/buyer/list?is_default&projectId="@ + project_id@,
{
    crate::text::concat_str("https://show.bilibili.com/api/ticket/buyer/list?is_default&projectId=", project_id)
}

} // verus!
