use vstd::prelude::*;

use serde_json::Value;

verus! {

#[verifier::external_type_specification]
#[verifier::external_body]
pub struct ExNumber(serde_json::Number);

/// serde_json::Number derives Clone over plain data: the copy equals the original.
pub assume_specification[ <serde_json::Number as Clone>::clone ](n: &serde_json::Number) -> (r: serde_json::Number)
    ensures
        r == *n,
;

/// A member value of a JSON object, reduced to the shapes the payload readers
/// tell apart. Numbers are carried through as serde_json gives them.
pub enum JsonScalar {
    Str(String),
    Bool(bool),
    Num(serde_json::Number),
    Other,
}

/// What the readers can see of a `JsonScalar`.
pub enum ScalarView {
    Str(Seq<char>),
    Bool(bool),
    Num(serde_json::Number),
    Other,
}

pub open spec fn scalar_view(v: JsonScalar) -> ScalarView {
    match v {
        JsonScalar::Str(s) => ScalarView::Str(s@),
        JsonScalar::Bool(b) => ScalarView::Bool(b),
        JsonScalar::Num(n) => ScalarView::Num(n),
        JsonScalar::Other => ScalarView::Other,
    }
}

/// One member of a JSON object.
pub struct JsonMember {
    pub key: String,
    pub value: JsonScalar,
}

pub open spec fn members_view(ms: Seq<JsonMember>) -> Seq<(Seq<char>, ScalarView)> {
    ms.map_values(|m: JsonMember| (m.key@, scalar_view(m.value)))
}

/// The members of the JSON document `text`: `None` when `text` is not a JSON
/// document, no members when it is one but not an object.
pub uninterp spec fn json_members(text: Seq<char>) -> Option<Seq<(Seq<char>, ScalarView)>>;

/// Relies on serde_json::from_str into a serde_json::Value: fails on text that
/// is not a JSON document; an object's members come out with their values
/// sorted into strings, booleans, numbers and the rest.
#[verifier::external_body]
fn parse_members(text: &str) -> (r: Option<Vec<JsonMember>>)
    ensures
        r matches Some(v) ==> json_members(text@) == Some(members_view(v@)),
        r is None ==> json_members(text@) is None,
{
    let doc: Value = serde_json::from_str(text).ok()?;
    let mut out = Vec::new();
    if let Value::Object(map) = doc {
        for (key, v) in map {
            let value = match v {
                Value::String(s) => JsonScalar::Str(s),
                Value::Bool(b) => JsonScalar::Bool(b),
                Value::Number(n) => JsonScalar::Num(n),
                _ => JsonScalar::Other,
            };
            out.push(JsonMember { key, value });
        }
    }
    Some(out)
}

/// The members of `text`, none when it does not parse.
pub open spec fn doc_of(text: Seq<char>) -> Seq<(Seq<char>, ScalarView)> {
    match json_members(text) {
        Some(ms) => ms,
        None => Seq::empty(),
    }
}

/// The value of the first member named `key`.
pub open spec fn member_value(ms: Seq<(Seq<char>, ScalarView)>, key: Seq<char>) -> Option<
    ScalarView,
>
    decreases ms.len(),
{
    if ms.len() == 0 {
        None
    } else if ms[0].0 == key {
        Some(ms[0].1)
    } else {
        member_value(ms.drop_first(), key)
    }
}

/// The value under the first of `keys` that is present.
pub open spec fn first_present(ms: Seq<(Seq<char>, ScalarView)>, keys: Seq<Seq<char>>) -> Option<
    ScalarView,
>
    decreases keys.len(),
{
    if keys.len() == 0 {
        None
    } else {
        match member_value(ms, keys[0]) {
            Some(v) => Some(v),
            None => first_present(ms, keys.drop_first()),
        }
    }
}

pub open spec fn as_str(v: Option<ScalarView>) -> Option<Seq<char>> {
    match v {
        Some(ScalarView::Str(s)) => Some(s),
        _ => None,
    }
}

pub open spec fn as_bool(v: Option<ScalarView>) -> Option<bool> {
    match v {
        Some(ScalarView::Bool(b)) => Some(b),
        _ => None,
    }
}

pub open spec fn as_num(v: Option<ScalarView>) -> Option<serde_json::Number> {
    match v {
        Some(ScalarView::Num(n)) => Some(n),
        _ => None,
    }
}

pub open spec fn opt_view(o: Option<String>) -> Option<Seq<char>> {
    match o {
        Some(s) => Some(s@),
        None => None,
    }
}

/// The string under the first present of `keys` in `text` (none if that
/// member is not a string).
pub open spec fn str_at(text: Seq<char>, keys: Seq<Seq<char>>) -> Option<Seq<char>> {
    as_str(first_present(doc_of(text), keys))
}

/// The number under member `key` of `text` (none if absent or not a number).
pub open spec fn num_at(text: Seq<char>, key: Seq<char>) -> Option<serde_json::Number> {
    as_num(member_value(doc_of(text), key))
}

/// Position of the first member named `key`.
fn find_member(ms: &Vec<JsonMember>, key: &str) -> (r: Option<usize>)
    ensures
        r matches Some(k) ==> k < ms@.len() && member_value(members_view(ms@), key@) == Some(
            scalar_view(ms@[k as int].value),
        ),
        r is None ==> member_value(members_view(ms@), key@) is None,
{
    let ghost mv = members_view(ms@);
    let key_s = String::from_str(key);
    assert(mv.subrange(0, mv.len() as int) =~= mv);
    let mut i: usize = 0;
    while i < ms.len()
        invariant
            0 <= i <= ms@.len(),
            mv == members_view(ms@),
            key_s@ == key@,
            member_value(mv, key@) == member_value(mv.subrange(i as int, mv.len() as int), key@),
        decreases ms@.len() - i,
    {
        let ghost tail = mv.subrange(i as int, mv.len() as int);
        assert(tail.drop_first() =~= mv.subrange(i + 1, mv.len() as int));
        assert(tail[0] == (ms@[i as int].key@, scalar_view(ms@[i as int].value)));
        if ms[i].key == key_s {
            return Some(i);
        }
        i = i + 1;
    }
    assert(mv.subrange(i as int, mv.len() as int).len() == 0);
    None
}

/// Position of the member under the first present of `keys`.
fn find_first(ms: &Vec<JsonMember>, keys: &Vec<&str>) -> (r: Option<usize>)
    ensures
        r matches Some(k) ==> k < ms@.len() && first_present(
            members_view(ms@),
            keys@.map_values(|s: &str| s@),
        ) == Some(scalar_view(ms@[k as int].value)),
        r is None ==> first_present(members_view(ms@), keys@.map_values(|s: &str| s@)) is None,
{
    let ghost kv = keys@.map_values(|s: &str| s@);
    assert(kv.subrange(0, kv.len() as int) =~= kv);
    let mut i: usize = 0;
    while i < keys.len()
        invariant
            0 <= i <= keys@.len(),
            kv == keys@.map_values(|s: &str| s@),
            first_present(members_view(ms@), kv) == first_present(
                members_view(ms@),
                kv.subrange(i as int, kv.len() as int),
            ),
        decreases keys@.len() - i,
    {
        let ghost tail = kv.subrange(i as int, kv.len() as int);
        assert(tail.drop_first() =~= kv.subrange(i + 1, kv.len() as int));
        assert(tail[0] == keys@[i as int]@);
        match find_member(ms, keys[i]) {
            Some(k) => {
                return Some(k);
            },
            None => {},
        }
        i = i + 1;
    }
    assert(kv.subrange(i as int, kv.len() as int).len() == 0);
    None
}

fn str_value(v: &JsonScalar) -> (r: Option<String>)
    ensures
        opt_view(r) == as_str(Some(scalar_view(*v))),
{
    match v {
        JsonScalar::Str(s) => Some(s.clone()),
        _ => None,
    }
}

fn num_value(v: &JsonScalar) -> (r: Option<serde_json::Number>)
    ensures
        r == as_num(Some(scalar_view(*v))),
{
    match v {
        JsonScalar::Num(n) => Some(n.clone()),
        _ => None,
    }
}

/// The string under the first present of `keys`.
fn read_str(ms: &Vec<JsonMember>, keys: &Vec<&str>) -> (r: Option<String>)
    ensures
        opt_view(r) == as_str(first_present(members_view(ms@), keys@.map_values(|s: &str| s@))),
{
    match find_first(ms, keys) {
        Some(k) => str_value(&ms[k].value),
        None => None,
    }
}

/// The number member `key`.
fn read_num(ms: &Vec<JsonMember>, key: &str) -> (r: Option<serde_json::Number>)
    ensures
        r == as_num(member_value(members_view(ms@), key@)),
{
    match find_member(ms, key) {
        Some(k) => num_value(&ms[k].value),
        None => None,
    }
}

/// The boolean member `key`.
fn read_bool(ms: &Vec<JsonMember>, key: &str) -> (r: Option<bool>)
    ensures
        r == as_bool(member_value(members_view(ms@), key@)),
{
    match find_member(ms, key) {
        Some(k) => match &ms[k].value {
            JsonScalar::Bool(b) => Some(*b),
            _ => None,
        },
        None => None,
    }
}

/// Members of `text`, none when it does not parse.
fn members_of(text: &str) -> (r: Vec<JsonMember>)
    ensures
        members_view(r@) == doc_of(text@),
{
    match parse_members(text) {
        Some(ms) => ms,
        None => {
            let v: Vec<JsonMember> = Vec::new();
            assert(members_view(v@) =~= Seq::<(Seq<char>, ScalarView)>::empty());
            v
        },
    }
}

/// Whether two characters are equal up to ASCII case.
pub open spec fn same_ignoring_ascii_case(a: char, b: char) -> bool {
    let x = a as u32;
    let y = b as u32;
    x == y || (65 <= x <= 90 && y == x + 32) || (65 <= y <= 90 && x == y + 32)
}

pub open spec fn eq_ignoring_ascii_case(a: Seq<char>, b: Seq<char>) -> bool {
    a.len() == b.len() && forall|i: int| 0 <= i < a.len() ==> same_ignoring_ascii_case(a[i], b[i])
}

/// Relies on str::eq_ignore_ascii_case: the two strings match position by
/// position, with ASCII letters compared without regard to case.
#[verifier::external_body]
fn eq_ignore_ascii_case(a: &str, b: &str) -> (r: bool)
    ensures
        r == eq_ignoring_ascii_case(a@, b@),
{
    a.eq_ignore_ascii_case(b)
}

pub open spec fn agent_keys() -> Seq<Seq<char>> {
    seq!["agent_eth_address"@, "agent"@, "account"@, "eth_address"@]
}

pub open spec fn follower_keys() -> Seq<Seq<char>> {
    seq!["follower_pubkey"@, "follower"@]
}

pub open spec fn oid_keys() -> Seq<Seq<char>> {
    seq!["oid"@, "order_id"@]
}

pub open spec fn register_eth_keys() -> Seq<Seq<char>> {
    seq!["eth_address"@, "account"@]
}

pub open spec fn one_key(k: Seq<char>) -> Seq<Seq<char>> {
    seq![k]
}

pub open spec fn or_default(v: Option<Seq<char>>, d: Seq<char>) -> Seq<char> {
    match v {
        Some(s) => s,
        None => d,
    }
}

fn read_key(ms: &Vec<JsonMember>, key: &str) -> (r: Option<String>)
    ensures
        opt_view(r) == as_str(first_present(members_view(ms@), one_key(key@))),
{
    let keys = vec![key];
    assert(keys@.map_values(|s: &str| s@) =~= one_key(key@));
    read_str(ms, &keys)
}

/// Fields of a decrypted trade signal, as logged.
pub struct SignalMeta {
    pub agent_eth_address: Option<String>,
    pub follower_pubkey: Option<String>,
    pub role: Option<String>,
    pub symbol: Option<String>,
    pub side: Option<String>,
    pub size: Option<serde_json::Number>,
    pub price: Option<serde_json::Number>,
    pub status: Option<String>,
    pub tx_hash: Option<String>,
    pub pnl: Option<serde_json::Number>,
    pub pnl_usd: Option<serde_json::Number>,
}

/// Reads the signal fields of `plaintext`; a payload that is not JSON reads as
/// having none of them.
pub fn extract_signal_meta(plaintext: &str) -> (r: SignalMeta)
    ensures
        opt_view(r.agent_eth_address) == str_at(plaintext@, agent_keys()),
        opt_view(r.follower_pubkey) == str_at(plaintext@, follower_keys()),
        opt_view(r.role) == str_at(plaintext@, one_key("role"@)),
        opt_view(r.symbol) == str_at(plaintext@, one_key("symbol"@)),
        opt_view(r.side) == str_at(plaintext@, one_key("side"@)),
        opt_view(r.status) == str_at(plaintext@, one_key("status"@)),
        opt_view(r.tx_hash) == str_at(plaintext@, one_key("tx_hash"@)),
        r.size == num_at(plaintext@, "size"@),
        r.price == num_at(plaintext@, "price"@),
        r.pnl == num_at(plaintext@, "pnl"@),
        r.pnl_usd == num_at(plaintext@, "pnl_usd"@),
{
    let ms = members_of(plaintext);
    let agent = vec!["agent_eth_address", "agent", "account", "eth_address"];
    assert(agent@.map_values(|s: &str| s@) =~= agent_keys());
    let follower = vec!["follower_pubkey", "follower"];
    assert(follower@.map_values(|s: &str| s@) =~= follower_keys());
    SignalMeta {
        agent_eth_address: read_str(&ms, &agent),
        follower_pubkey: read_str(&ms, &follower),
        role: read_key(&ms, "role"),
        symbol: read_key(&ms, "symbol"),
        side: read_key(&ms, "side"),
        size: read_num(&ms, "size"),
        price: read_num(&ms, "price"),
        status: read_key(&ms, "status"),
        tx_hash: read_key(&ms, "tx_hash"),
        pnl: read_num(&ms, "pnl"),
        pnl_usd: read_num(&ms, "pnl_usd"),
    }
}

/// The agent eth address of a decrypted payload (under `agent_eth_address`,
/// `agent`, `account` or `eth_address`, the first present).
pub fn extract_agent_eth(plaintext: &str) -> (r: Option<String>)
    ensures
        opt_view(r) == str_at(plaintext@, agent_keys()),
{
    extract_signal_meta(plaintext).agent_eth_address
}

/// Fields of a decrypted payload that describe a trade to record.
pub struct TradeMeta {
    pub tx_hash: Option<String>,
    pub oid: Option<String>,
    pub symbol: Option<String>,
    pub side: Option<String>,
    pub size: Option<serde_json::Number>,
    pub price: Option<serde_json::Number>,
    pub status: Option<String>,
    pub pnl: Option<serde_json::Number>,
    pub pnl_usd: Option<serde_json::Number>,
    pub follower_pubkey: Option<String>,
    pub role: String,
    pub is_test: bool,
}

/// Whether the payload marks its trade as a test: `test_mode` is `true`, or
/// the status reads "simulated" in any ASCII case.
pub open spec fn test_trade(text: Seq<char>) -> bool {
    as_bool(member_value(doc_of(text), "test_mode"@)) == Some(true) || match str_at(
        text,
        one_key("status"@),
    ) {
        Some(s) => eq_ignoring_ascii_case(s, "simulated"@),
        None => false,
    }
}

/// A payload describes a trade when it is a JSON document.
pub open spec fn describes_trade(text: Seq<char>) -> bool {
    json_members(text) is Some
}

/// Reads the trade fields of `plaintext`; `None` when it is not JSON. The
/// role defaults to "leader".
pub fn extract_trade_meta(plaintext: &str) -> (r: Option<TradeMeta>)
    ensures
        r is Some == describes_trade(plaintext@),
        r matches Some(m) ==> {
            &&& opt_view(m.tx_hash) == str_at(plaintext@, one_key("tx_hash"@))
            &&& opt_view(m.oid) == str_at(plaintext@, oid_keys())
            &&& opt_view(m.symbol) == str_at(plaintext@, one_key("symbol"@))
            &&& opt_view(m.side) == str_at(plaintext@, one_key("side"@))
            &&& opt_view(m.status) == str_at(plaintext@, one_key("status"@))
            &&& opt_view(m.follower_pubkey) == str_at(plaintext@, follower_keys())
            &&& m.role@ == or_default(str_at(plaintext@, one_key("role"@)), "leader"@)
            &&& m.is_test == test_trade(plaintext@)
            &&& m.size == num_at(plaintext@, "size"@)
            &&& m.price == num_at(plaintext@, "price"@)
            &&& m.pnl == num_at(plaintext@, "pnl"@)
            &&& m.pnl_usd == num_at(plaintext@, "pnl_usd"@)
        },
{
    let ms = match parse_members(plaintext) {
        Some(ms) => ms,
        None => return None,
    };
    let tx_hash = read_key(&ms, "tx_hash");
    let oid_keys_v = vec!["oid", "order_id"];
    assert(oid_keys_v@.map_values(|s: &str| s@) =~= oid_keys());
    let oid = read_str(&ms, &oid_keys_v);
    let follower = vec!["follower_pubkey", "follower"];
    assert(follower@.map_values(|s: &str| s@) =~= follower_keys());
    let status = read_key(&ms, "status");
    let test_mode = read_bool(&ms, "test_mode");
    let simulated = match &status {
        Some(s) => eq_ignore_ascii_case(s.as_str(), "simulated"),
        None => false,
    };
    let is_test = test_mode == Some(true) || simulated;
    let role = match read_key(&ms, "role") {
        Some(r) => r,
        None => String::from_str("leader"),
    };
    Some(TradeMeta {
        tx_hash,
        oid,
        symbol: read_key(&ms, "symbol"),
        side: read_key(&ms, "side"),
        size: read_num(&ms, "size"),
        price: read_num(&ms, "price"),
        status,
        pnl: read_num(&ms, "pnl"),
        pnl_usd: read_num(&ms, "pnl_usd"),
        follower_pubkey: read_str(&ms, &follower),
        role,
        is_test,
    })
}

/// A bot record to upsert, announced by an agent-register event.
pub struct BotRegistration {
    pub bot_pubkey: String,
    pub nostr_pubkey: String,
    pub eth_address: String,
    pub name: String,
}

/// An agent-register payload is accepted when it is JSON with a non-empty
/// `eth_address` (or, absent that member, `account`).
pub open spec fn registration_accepted(text: Seq<char>) -> bool {
    json_members(text) is Some && match str_at(text, register_eth_keys()) {
        Some(e) => e.len() > 0,
        None => false,
    }
}

/// Reads an agent-register payload sent by `sender`; missing bot and bus keys
/// fall back to the sender's key, a missing name to "agent". `None` when the
/// payload is not JSON or names no eth address.
pub fn parse_registration(content: &str, sender: &String) -> (r: Option<BotRegistration>)
    ensures
        r is Some == registration_accepted(content@),
        r matches Some(reg) ==> {
            &&& Some(reg.eth_address@) == str_at(content@, register_eth_keys())
            &&& reg.bot_pubkey@ == or_default(str_at(content@, one_key("bot_pubkey"@)), sender@)
            &&& reg.nostr_pubkey@ == or_default(str_at(content@, one_key("nostr_pubkey"@)), sender@)
            &&& reg.name@ == or_default(str_at(content@, one_key("name"@)), "agent"@)
        },
{
    let ms = match parse_members(content) {
        Some(ms) => ms,
        None => return None,
    };
    let eth_keys = vec!["eth_address", "account"];
    assert(eth_keys@.map_values(|s: &str| s@) =~= register_eth_keys());
    let eth_address = match read_str(&ms, &eth_keys) {
        Some(e) => e,
        None => return None,
    };
    if eth_address.as_str().is_empty() {
        return None;
    }
    let bot_pubkey = match read_key(&ms, "bot_pubkey") {
        Some(b) => b,
        None => sender.clone(),
    };
    let nostr_pubkey = match read_key(&ms, "nostr_pubkey") {
        Some(n) => n,
        None => sender.clone(),
    };
    let name = match read_key(&ms, "name") {
        Some(n) => n,
        None => String::from_str("agent"),
    };
    Some(BotRegistration { bot_pubkey, nostr_pubkey, eth_address, name })
}

} // verus!
