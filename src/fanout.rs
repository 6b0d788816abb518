use vstd::prelude::*;

use crate::kinds::{KIND_AGENT_REGISTER, KIND_TRADE_SIGNAL};
use crate::crypto::{decrypt_event, nip04_keys_usable, nip04_plaintext, nip04_shaped, republish_payloads};
use crate::kinds::{KIND_COPYTRADE_INTENT, KIND_EXECUTION_REPORT};
use crate::payload::{
    agent_keys, describes_trade, extract_agent_eth, extract_signal_meta, extract_trade_meta, follower_keys,
    num_at, oid_keys, one_key, opt_view, or_default, parse_registration, registration_accepted,
    register_eth_keys, str_at, test_trade, BotRegistration, SignalMeta,
};
use vstd::utf8::encode_utf8;
use crate::router::{event_ids, lemma_forwarded_at_most_once, EventRouter, InboundEvent};

verus! {

/// A follower subscribed to a bot; `shared_secret` holds the follower's
/// public key, to which the bot's signals are re-encrypted.
pub struct SubscriptionRow {
    pub follower_pubkey: String,
    pub shared_secret: String,
}

/// A registered bot.
pub struct BotRecord {
    pub bot_pubkey: String,
    pub nostr_pubkey: String,
    pub eth_address: String,
}

/// A decrypted signal queued for one follower's push channel.
pub struct FanoutMessage {
    pub target_pubkey: String,
    pub bot_pubkey: String,
    pub kind: u16,
    pub original_event_id: String,
    pub payload: String,
}

/// The kinds whose payload is encrypted to the platform key.
pub open spec fn encrypted_kind(kind: u16) -> bool {
    kind == KIND_TRADE_SIGNAL || kind == KIND_COPYTRADE_INTENT || kind == KIND_EXECUTION_REPORT
}

/// The platform's bus identity: its public key (hex, as on inbound events)
/// and its secret key (hex or bech32).
pub struct PlatformKey {
    pub pubkey_hex: String,
    pub secret: String,
}

/// The first step of handling a forwarded event.
pub enum EventOutcome {
    /// No further work: a heartbeat, a kind with no handler, or an encrypted
    /// kind with no platform key configured.
    Ignore,
    /// Our own re-publication coming back: skipped, not decrypted.
    SelfEcho,
    /// An agent registration: upsert this bot.
    Register(BotRegistration),
    /// An agent registration that is not JSON or names no eth address: dropped.
    RegistrationRefused,
    /// An encrypted payload that does not decrypt: dropped.
    Undecryptable,
    /// An encrypted payload, decrypted.
    Decrypted(String),
}

/// Classifies a forwarded event and does what needs no lookup: reads an
/// agent registration, or decrypts a trade signal, copy-trade intent or
/// execution report sent by anyone but the platform.
pub fn handle_copytrade_fanout(ev: &InboundEvent, platform: Option<&PlatformKey>) -> (r: EventOutcome)
    ensures
        ev.kind == KIND_AGENT_REGISTER ==> match r {
            EventOutcome::Register(reg) => {
                &&& registration_accepted(ev.content@)
                &&& Some(reg.eth_address@) == str_at(ev.content@, register_eth_keys())
                &&& reg.bot_pubkey@ == or_default(str_at(ev.content@, one_key("bot_pubkey"@)), ev.pubkey@)
                &&& reg.nostr_pubkey@ == or_default(str_at(ev.content@, one_key("nostr_pubkey"@)), ev.pubkey@)
                &&& reg.name@ == or_default(str_at(ev.content@, one_key("name"@)), "agent"@)
            },
            EventOutcome::RegistrationRefused => !registration_accepted(ev.content@),
            _ => false,
        },
        !encrypted_kind(ev.kind) && ev.kind != KIND_AGENT_REGISTER ==> r is Ignore,
        encrypted_kind(ev.kind) ==> match platform {
            None => r is Ignore,
            Some(pk) => if ev.pubkey@ == pk.pubkey_hex@ {
                r is SelfEcho
            } else {
                match r {
                    EventOutcome::Decrypted(p) => nip04_shaped(encode_utf8(ev.content@)) && nip04_plaintext(
                        pk.secret@,
                        ev.pubkey@,
                        ev.content@,
                    ) == Some(p@),
                    EventOutcome::Undecryptable => !nip04_shaped(encode_utf8(ev.content@))
                        || nip04_plaintext(pk.secret@, ev.pubkey@, ev.content@) is None,
                    _ => false,
                }
            },
        },
{
    if ev.kind == KIND_AGENT_REGISTER {
        return match parse_registration(ev.content.as_str(), &ev.pubkey) {
            Some(reg) => EventOutcome::Register(reg),
            None => EventOutcome::RegistrationRefused,
        };
    }
    if !(ev.kind == KIND_TRADE_SIGNAL || ev.kind == KIND_COPYTRADE_INTENT || ev.kind == KIND_EXECUTION_REPORT) {
        return EventOutcome::Ignore;
    }
    match platform {
        None => EventOutcome::Ignore,
        Some(pk) => if ev.pubkey == pk.pubkey_hex {
            EventOutcome::SelfEcho
        } else {
            match decrypt_event(&pk.secret, ev) {
                Some(p) => EventOutcome::Decrypted(p),
                None => EventOutcome::Undecryptable,
            }
        },
    }
}

/// What to do with a decrypted payload.
pub enum PayloadPlan {
    /// Resolve the bot registered under `eth`; a trade signal is entered in
    /// the signal log whatever the lookup finds.
    ResolveBot { eth: String, log_signal: bool },
    /// A trade signal that names no eth address: log it with no bot, and stop.
    LogSignalOnly,
    /// Any other payload that names no eth address: drop it.
    Drop,
}

/// Plans the handling of a payload of kind `kind` decrypted to `plaintext`,
/// from the agent eth address it names (if any).
pub fn plan_payload(kind: u16, plaintext: &str) -> (r: PayloadPlan)
    ensures
        match str_at(plaintext@, agent_keys()) {
            Some(e) => r matches PayloadPlan::ResolveBot { eth, log_signal } && eth@ == e && log_signal
                == (kind == KIND_TRADE_SIGNAL),
            None => if kind == KIND_TRADE_SIGNAL {
                r is LogSignalOnly
            } else {
                r is Drop
            },
        },
{
    match extract_agent_eth(plaintext) {
        Some(eth) => PayloadPlan::ResolveBot { eth, log_signal: kind == KIND_TRADE_SIGNAL },
        None => if kind == KIND_TRADE_SIGNAL {
            PayloadPlan::LogSignalOnly
        } else {
            PayloadPlan::Drop
        },
    }
}

/// A settlement change carried by a signal payload.
pub struct SettlementUpdate {
    pub status: String,
    pub pnl: Option<serde_json::Number>,
    pub pnl_usd: Option<serde_json::Number>,
}

/// A trade row to insert (ignored on a tx-hash or order-id conflict), and
/// the settlement change to apply to it, if any.
pub struct TradeWrite {
    pub bot_pubkey: String,
    pub follower_pubkey: Option<String>,
    pub role: String,
    pub symbol: String,
    pub side: String,
    pub size: Option<serde_json::Number>,
    pub price: Option<serde_json::Number>,
    pub tx_hash: Option<String>,
    pub oid: Option<String>,
    pub is_test: bool,
    pub settlement: Option<SettlementUpdate>,
}

/// `w` is the trade row that payload `p` describes for bot `bot_pk`, from
/// event `event_id`.
pub open spec fn trade_row(w: TradeWrite, p: Seq<char>, bot_pk: Seq<char>, event_id: Seq<char>) -> bool {
    &&& w.bot_pubkey@ == bot_pk
    &&& opt_view(w.tx_hash) == str_at(p, one_key("tx_hash"@))
    &&& w.oid matches Some(o) && o@ == or_default(str_at(p, oid_keys()), event_id)
    &&& w.symbol@ == or_default(str_at(p, one_key("symbol"@)), Seq::empty())
    &&& w.side@ == or_default(str_at(p, one_key("side"@)), Seq::empty())
    &&& w.role@ == or_default(str_at(p, one_key("role"@)), "leader"@)
    &&& opt_view(w.follower_pubkey) == str_at(p, follower_keys())
    &&& w.is_test == test_trade(p)
    &&& w.size == num_at(p, "size"@)
    &&& w.price == num_at(p, "price"@)
    &&& (w.settlement is Some <==> (str_at(p, one_key("status"@)) is Some || num_at(p, "pnl"@) is Some
        || num_at(p, "pnl_usd"@) is Some))
    &&& w.settlement matches Some(u) ==> {
        &&& u.status@ == or_default(str_at(p, one_key("status"@)), "pending"@)
        &&& u.pnl == num_at(p, "pnl"@)
        &&& u.pnl_usd == num_at(p, "pnl_usd"@)
    }
}

/// The trade row for a decrypted payload resolved to `bot_pubkey`; `None`
/// when the payload is not JSON. The order id falls back to the event id;
/// symbol and side to empty strings. A
/// settlement change comes along when the payload has a status, a PnL or a
/// USD PnL; its status defaults to "pending".
pub fn maybe_record_trade(plaintext: &str, bot_pubkey: &String, event_id: &String) -> (r: Option<TradeWrite>)
    ensures
        r is Some == describes_trade(plaintext@),
        r matches Some(w) ==> trade_row(w, plaintext@, bot_pubkey@, event_id@),
{
    let meta = match extract_trade_meta(plaintext) {
        Some(m) => m,
        None => return None,
    };
    let oid = match meta.oid {
        Some(o) => o,
        None => event_id.clone(),
    };
    let settlement = if meta.status.is_some() || meta.pnl.is_some() || meta.pnl_usd.is_some() {
        let status = match meta.status {
            Some(s) => s,
            None => String::from_str("pending"),
        };
        Some(SettlementUpdate { status, pnl: meta.pnl, pnl_usd: meta.pnl_usd })
    } else {
        None
    };
    let symbol = match meta.symbol {
        Some(s) => s,
        None => String::new(),
    };
    let side = match meta.side {
        Some(s) => s,
        None => String::new(),
    };
    Some(TradeWrite {
        bot_pubkey: bot_pubkey.clone(),
        follower_pubkey: meta.follower_pubkey,
        role: meta.role,
        symbol,
        side,
        size: meta.size,
        price: meta.price,
        tx_hash: meta.tx_hash,
        oid: Some(oid),
        is_test: meta.is_test,
        settlement,
    })
}

/// A decrypted trade signal as entered in the signal log.
pub struct SignalRecord {
    pub event_id: String,
    pub kind: u16,
    pub bot_pubkey: Option<String>,
    pub leader_pubkey: String,
    pub follower_pubkey: Option<String>,
    pub agent_eth_address: Option<String>,
    pub role: Option<String>,
    pub symbol: Option<String>,
    pub side: Option<String>,
    pub size: Option<serde_json::Number>,
    pub price: Option<serde_json::Number>,
    pub status: Option<String>,
    pub tx_hash: Option<String>,
    pub pnl: Option<serde_json::Number>,
    pub pnl_usd: Option<serde_json::Number>,
    pub raw_content: String,
    /// Creation time of the event, seconds since the epoch.
    pub event_created_at: u64,
}

/// The signal-log entry for trade signal `ev`, decrypted to `plaintext` and
/// read into `meta`; `bot_pubkey` is the bot its eth address resolved to.
pub fn signal_record(ev: &InboundEvent, plaintext: &String, meta: SignalMeta, bot_pubkey: Option<String>) -> (r: SignalRecord)
    ensures
        r.event_id@ == ev.id@,
        r.kind == ev.kind,
        r.leader_pubkey@ == ev.pubkey@,
        r.event_created_at == ev.created_at,
        r.raw_content@ == plaintext@,
        r.bot_pubkey == bot_pubkey,
        r.agent_eth_address == meta.agent_eth_address,
        r.follower_pubkey == meta.follower_pubkey,
        r.role == meta.role,
        r.symbol == meta.symbol,
        r.side == meta.side,
        r.size == meta.size,
        r.price == meta.price,
        r.status == meta.status,
        r.tx_hash == meta.tx_hash,
        r.pnl == meta.pnl,
        r.pnl_usd == meta.pnl_usd,
{
    SignalRecord {
        event_id: ev.id.clone(),
        kind: ev.kind,
        bot_pubkey,
        leader_pubkey: ev.pubkey.clone(),
        follower_pubkey: meta.follower_pubkey,
        agent_eth_address: meta.agent_eth_address,
        role: meta.role,
        symbol: meta.symbol,
        side: meta.side,
        size: meta.size,
        price: meta.price,
        status: meta.status,
        tx_hash: meta.tx_hash,
        pnl: meta.pnl,
        pnl_usd: meta.pnl_usd,
        raw_content: plaintext.clone(),
        event_created_at: ev.created_at,
    }
}

/// One push message per follower, in order, each carrying the plaintext.
pub fn fanout_messages(
    followers: &Vec<SubscriptionRow>,
    bot_pubkey: &String,
    kind: u16,
    event_id: &String,
    plaintext: &String,
) -> (r: Vec<FanoutMessage>)
    ensures
        r@.len() == followers@.len(),
        forall|i: int|
            0 <= i < r@.len() ==> {
                &&& (#[trigger] r@[i]).target_pubkey@ == followers@[i].follower_pubkey@
                &&& r@[i].bot_pubkey@ == bot_pubkey@
                &&& r@[i].kind == kind
                &&& r@[i].original_event_id@ == event_id@
                &&& r@[i].payload@ == plaintext@
            },
{
    let mut out: Vec<FanoutMessage> = Vec::new();
    let mut i: usize = 0;
    while i < followers.len()
        invariant
            0 <= i <= followers@.len(),
            out@.len() == i,
            forall|j: int|
                0 <= j < i ==> {
                    &&& (#[trigger] out@[j]).target_pubkey@ == followers@[j].follower_pubkey@
                    &&& out@[j].bot_pubkey@ == bot_pubkey@
                    &&& out@[j].kind == kind
                    &&& out@[j].original_event_id@ == event_id@
                    &&& out@[j].payload@ == plaintext@
                },
        decreases followers@.len() - i,
    {
        out.push(
            FanoutMessage {
                target_pubkey: followers[i].follower_pubkey.clone(),
                bot_pubkey: bot_pubkey.clone(),
                kind,
                original_event_id: event_id.clone(),
                payload: plaintext.clone(),
            },
        );
        i = i + 1;
    }
    out
}

/// `sr` is the signal-log row for event `ev` decrypted to `p`, resolved to
/// the bot `bot` (if any).
pub open spec fn signal_row(sr: SignalRecord, ev: InboundEvent, p: Seq<char>, bot: Option<Seq<char>>) -> bool {
    &&& sr.event_id@ == ev.id@
    &&& sr.kind == ev.kind
    &&& sr.leader_pubkey@ == ev.pubkey@
    &&& sr.event_created_at == ev.created_at
    &&& sr.raw_content@ == p
    &&& opt_view(sr.bot_pubkey) == bot
    &&& opt_view(sr.agent_eth_address) == str_at(p, agent_keys())
    &&& opt_view(sr.follower_pubkey) == str_at(p, follower_keys())
    &&& opt_view(sr.role) == str_at(p, one_key("role"@))
    &&& opt_view(sr.symbol) == str_at(p, one_key("symbol"@))
    &&& opt_view(sr.side) == str_at(p, one_key("side"@))
    &&& opt_view(sr.status) == str_at(p, one_key("status"@))
    &&& opt_view(sr.tx_hash) == str_at(p, one_key("tx_hash"@))
    &&& sr.size == num_at(p, "size"@)
    &&& sr.price == num_at(p, "price"@)
    &&& sr.pnl == num_at(p, "pnl"@)
    &&& sr.pnl_usd == num_at(p, "pnl_usd"@)
}

/// Everything to do for a decrypted payload once its bot is looked up.
pub struct Dispatch {
    /// The signal-log row (trade signals only).
    pub signal: Option<SignalRecord>,
    /// The trade row (and settlement change) to write.
    pub trade: Option<TradeWrite>,
    /// One push message per follower.
    pub pushes: Vec<FanoutMessage>,
    /// One re-publication per follower: recipient key and ciphertext, `None`
    /// where the follower's key is not usable (that follower is skipped).
    pub publications: Vec<(String, Option<String>)>,
}

/// The complete handling of event `ev` decrypted to `plaintext`, given the
/// bot its agent eth address resolved to (none when it names no address or
/// no bot is registered under it) and that bot's followers. A trade signal
/// is logged whatever the lookup found; with no bot nothing else happens.
pub fn dispatch_decrypted(
    ev: &InboundEvent,
    plaintext: &String,
    bot: Option<&BotRecord>,
    followers: &Vec<SubscriptionRow>,
    platform_secret: &String,
) -> (r: Dispatch)
    ensures
        r.signal is Some == (ev.kind == KIND_TRADE_SIGNAL),
        r.signal matches Some(sr) ==> signal_row(
            sr,
            *ev,
            plaintext@,
            match bot {
                Some(b) => Some(b.bot_pubkey@),
                None => None,
            },
        ),
        bot is None ==> r.trade is None && r.pushes@.len() == 0 && r.publications@.len() == 0,
        bot matches Some(b) ==> {
            &&& r.trade is Some == describes_trade(plaintext@)
            &&& r.trade matches Some(w) ==> trade_row(w, plaintext@, b.bot_pubkey@, ev.id@)
            &&& r.pushes@.len() == followers@.len()
            &&& forall|i: int|
                0 <= i < r.pushes@.len() ==> {
                    &&& (#[trigger] r.pushes@[i]).target_pubkey@ == followers@[i].follower_pubkey@
                    &&& r.pushes@[i].bot_pubkey@ == b.bot_pubkey@
                    &&& r.pushes@[i].kind == ev.kind
                    &&& r.pushes@[i].original_event_id@ == ev.id@
                    &&& r.pushes@[i].payload@ == plaintext@
                }
            &&& r.publications@.len() == followers@.len()
            &&& forall|i: int|
                0 <= i < r.publications@.len() ==> (#[trigger] r.publications@[i]).0@
                    == followers@[i].shared_secret@ && r.publications@[i].1 is Some == nip04_keys_usable(
                    platform_secret@,
                    followers@[i].shared_secret@,
                )
        },
{
    let signal = if ev.kind == KIND_TRADE_SIGNAL {
        let meta = extract_signal_meta(plaintext.as_str());
        let bot_pk = match bot {
            Some(b) => Some(b.bot_pubkey.clone()),
            None => None,
        };
        Some(signal_record(ev, plaintext, meta, bot_pk))
    } else {
        None
    };
    match bot {
        None => Dispatch { signal, trade: None, pushes: Vec::new(), publications: Vec::new() },
        Some(b) => {
            let trade = maybe_record_trade(plaintext.as_str(), &b.bot_pubkey, &ev.id);
            let pushes = fanout_messages(followers, &b.bot_pubkey, ev.kind, &ev.id, plaintext);
            let publications = republish_payloads(platform_secret, followers, plaintext);
            Dispatch { signal, trade, pushes, publications }
        },
    }
}

/// Signal idempotence: signal-log rows built for events a router handed
/// downstream, at most one per handed-out event, never repeat an event id;
/// feeding the same trade signal twice yields one row.
pub proof fn lemma_signal_rows_unique(
    r: &EventRouter,
    rows: Seq<SignalRecord>,
    at: Seq<int>,
    texts: Seq<Seq<char>>,
    bots: Seq<Option<Seq<char>>>,
)
    requires
        r.wf(),
        rows.len() == at.len(),
        rows.len() == texts.len(),
        rows.len() == bots.len(),
        forall|i: int, j: int| 0 <= i < j < at.len() ==> at[i] < at[j],
        forall|k: int|
            0 <= k < rows.len() ==> 0 <= at[k] < r.downstream().len() && signal_row(
                #[trigger] rows[k],
                r.downstream()[at[k]],
                texts[k],
                bots[k],
            ),
    ensures
        forall|i: int, j: int|
            0 <= i < rows.len() && 0 <= j < rows.len() && i != j ==> rows[i].event_id@ != rows[j].event_id@,
{
    lemma_forwarded_at_most_once(r);
    assert forall|i: int, j: int|
        0 <= i < rows.len() && 0 <= j < rows.len() && i != j implies rows[i].event_id@ != rows[j].event_id@ by {
        if i < j {
            assert(at[i] < at[j]);
        } else {
            assert(at[j] < at[i]);
        }
        assert(event_ids(r.downstream())[at[i]] != event_ids(r.downstream())[at[j]]);
    }
}

} // verus!
