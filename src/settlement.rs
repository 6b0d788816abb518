use vstd::prelude::*;

verus! {

/// What the explorer says of a transaction.
#[derive(Clone, Copy, Debug, PartialEq, Eq, Structural)]
pub enum TxVerdict {
    Confirmed,
    Failed,
    /// Not known (yet), or not probed.
    Unknown,
}

pub open spec fn verdict_of(status: u16) -> TxVerdict {
    if status == 200 {
        TxVerdict::Confirmed
    } else if status == 404 {
        TxVerdict::Unknown
    } else if 400 <= status <= 599 {
        TxVerdict::Failed
    } else {
        TxVerdict::Unknown
    }
}

/// The verdict carried by the explorer's status code for a transaction: 200
/// confirms it, 404 leaves it unknown, any other 4xx or 5xx fails it.
pub fn tx_verdict(status: u16) -> (r: TxVerdict)
    ensures
        r == verdict_of(status),
{
    if status == 200 {
        TxVerdict::Confirmed
    } else if status == 404 {
        TxVerdict::Unknown
    } else if 400 <= status && status <= 599 {
        TxVerdict::Failed
    } else {
        TxVerdict::Unknown
    }
}

/// Whether a pending trade's transaction hash is worth probing: present and
/// non-empty.
pub fn needs_probe(tx_hash: &Option<String>) -> (r: bool)
    ensures
        r == (tx_hash matches Some(h) && h@.len() > 0),
{
    match tx_hash {
        Some(h) => !h.as_str().is_empty(),
        None => false,
    }
}

/// `s` without its trailing slashes.
pub open spec fn trim_trailing_slashes(s: Seq<char>) -> Seq<char>
    decreases s.len(),
{
    if s.len() > 0 && s.last() == '/' {
        trim_trailing_slashes(s.drop_last())
    } else {
        s
    }
}

/// Relies on str::trim_end_matches with a '/' pattern: every trailing slash
/// is removed, nothing else.
#[verifier::external_body]
fn trim_end_slashes(s: &str) -> (r: String)
    ensures
        r@ == trim_trailing_slashes(s@),
{
    s.trim_end_matches('/').to_string()
}

/// The explorer page probed for `tx_hash`: the base without trailing
/// slashes, a slash, then the hash.
pub fn explorer_url(base: &str, tx_hash: &str) -> (r: String)
    ensures
        r@ == trim_trailing_slashes(base@) + seq!['/'] + tx_hash@,
{
    let mut url = trim_end_slashes(base);
    url.append("/");
    proof {
        reveal_strlit("/");
    }
    url.append(tx_hash);
    assert(url@ =~= trim_trailing_slashes(base@) + seq!['/'] + tx_hash@);
    url
}

/// What one settlement tick does with a pending trade.
#[derive(Clone, Copy, Debug, PartialEq, Eq, Structural)]
pub enum SettleAction {
    /// Mark it confirmed, then award its credit.
    ConfirmThenCredit,
    /// Mark it failed.
    MarkFailed,
    /// No transaction hash to wait for: award its credit, then mark it confirmed.
    CreditThenConfirm,
    /// Leave it pending for a later tick.
    LeavePending,
}

pub open spec fn settle_action_of(has_tx_hash: bool, verdict: Option<TxVerdict>) -> SettleAction {
    match verdict {
        None => SettleAction::LeavePending,
        Some(TxVerdict::Confirmed) => SettleAction::ConfirmThenCredit,
        Some(TxVerdict::Failed) => SettleAction::MarkFailed,
        Some(TxVerdict::Unknown) => if has_tx_hash {
            SettleAction::LeavePending
        } else {
            SettleAction::CreditThenConfirm
        },
    }
}

/// Decides a pending trade's fate from its probe: `verdict` is `None` when
/// the probe itself failed, and `Unknown` when there was nothing to probe.
pub fn settle_action(tx_hash: &Option<String>, verdict: Option<TxVerdict>) -> (r: SettleAction)
    ensures
        r == settle_action_of(tx_hash is Some, verdict),
{
    match verdict {
        None => SettleAction::LeavePending,
        Some(TxVerdict::Confirmed) => SettleAction::ConfirmThenCredit,
        Some(TxVerdict::Failed) => SettleAction::MarkFailed,
        Some(TxVerdict::Unknown) => if tx_hash.is_some() {
            SettleAction::LeavePending
        } else {
            SettleAction::CreditThenConfirm
        },
    }
}

/// Who is credited for a trade: its follower when it has one, else its bot.
pub fn credit_recipient(bot_pubkey: &String, follower_pubkey: &Option<String>) -> (r: String)
    ensures
        r@ == (match follower_pubkey {
            Some(f) => f@,
            None => bot_pubkey@,
        }),
{
    match follower_pubkey {
        Some(f) => f.clone(),
        None => bot_pubkey.clone(),
    }
}

/// A settlement update names its trade by transaction hash or order id; with
/// neither it applies to nothing.
pub fn settlement_has_target(tx_hash: &Option<String>, oid: &Option<String>) -> (r: bool)
    ensures
        r == (tx_hash is Some || oid is Some),
{
    tx_hash.is_some() || oid.is_some()
}

} // verus!
