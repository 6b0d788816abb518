use moltrade_relayer::settlement::{
    credit_recipient, explorer_url, needs_probe, settle_action, settlement_has_target, tx_verdict,
    SettleAction, TxVerdict,
};

#[test]
fn explorer_status_mapping() {
    assert_eq!(tx_verdict(200), TxVerdict::Confirmed);
    assert_eq!(tx_verdict(404), TxVerdict::Unknown);
    assert_eq!(tx_verdict(500), TxVerdict::Failed);
    assert_eq!(tx_verdict(403), TxVerdict::Failed);
    assert_eq!(tx_verdict(302), TxVerdict::Unknown);
    assert_eq!(tx_verdict(201), TxVerdict::Unknown);
}

#[test]
fn settlement_actions_for_a_hashed_trade() {
    let tx = Some("0xdead".to_string());
    assert_eq!(settle_action(&tx, Some(tx_verdict(404))), SettleAction::LeavePending);
    assert_eq!(settle_action(&tx, Some(tx_verdict(200))), SettleAction::ConfirmThenCredit);
    assert_eq!(settle_action(&tx, Some(tx_verdict(500))), SettleAction::MarkFailed);
    assert_eq!(settle_action(&tx, None), SettleAction::LeavePending);
}

#[test]
fn trade_without_hash_is_credited_then_confirmed() {
    assert!(!needs_probe(&None));
    assert_eq!(settle_action(&None, Some(TxVerdict::Unknown)), SettleAction::CreditThenConfirm);
}

#[test]
fn empty_hash_is_not_probed_and_stays_pending() {
    let tx = Some(String::new());
    assert!(!needs_probe(&tx));
    assert_eq!(settle_action(&tx, Some(TxVerdict::Unknown)), SettleAction::LeavePending);
    assert!(needs_probe(&Some("0x1".to_string())));
}

#[test]
fn explorer_url_trims_trailing_slashes() {
    assert_eq!(explorer_url("https://x.io/tx//", "0xdead"), "https://x.io/tx/0xdead");
    assert_eq!(explorer_url("https://x.io/tx", "0xdead"), "https://x.io/tx/0xdead");
}

#[test]
fn leader_trade_settles_and_credits_its_bot() {
    let tx = Some("0xdead".to_string());
    assert!(needs_probe(&tx));
    assert_eq!(settle_action(&tx, Some(tx_verdict(200))), SettleAction::ConfirmThenCredit);
    assert_eq!(credit_recipient(&"B".to_string(), &None), "B");
}

#[test]
fn follower_trade_credits_the_follower() {
    assert_eq!(credit_recipient(&"B".to_string(), &Some("F".to_string())), "F");
}

#[test]
fn settlement_needs_a_key() {
    assert!(!settlement_has_target(&None, &None));
    assert!(settlement_has_target(&Some("0x1".to_string()), &None));
    assert!(settlement_has_target(&None, &Some("7".to_string())));
}
