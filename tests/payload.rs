use moltrade_relayer::payload::{
    extract_agent_eth, extract_signal_meta, extract_trade_meta, parse_registration,
};

#[test]
fn agent_eth_aliases_in_order() {
    assert_eq!(extract_agent_eth(r#"{"agent":"0xB"}"#), Some("0xB".to_string()));
    assert_eq!(extract_agent_eth(r#"{"account":"0xC"}"#), Some("0xC".to_string()));
    assert_eq!(extract_agent_eth(r#"{"eth_address":"0xD"}"#), Some("0xD".to_string()));
    assert_eq!(
        extract_agent_eth(r#"{"eth_address":"0xD","agent_eth_address":"0xA","agent":"0xB"}"#),
        Some("0xA".to_string())
    );
}

#[test]
fn agent_eth_first_present_member_decides() {
    assert_eq!(extract_agent_eth(r#"{"agent_eth_address":5,"agent":"0xB"}"#), None);
}

#[test]
fn agent_eth_missing_or_not_json() {
    assert_eq!(extract_agent_eth(r#"{"symbol":"BTC"}"#), None);
    assert_eq!(extract_agent_eth("not json"), None);
    assert_eq!(extract_agent_eth(r#"["0xA"]"#), None);
}

#[test]
fn signal_meta_reads_fields() {
    let m = extract_signal_meta(
        r#"{"agent":"0xA","follower":"F","role":"follower","symbol":"ETH","side":"sell","size":1.5,"price":"x","status":"filled","tx_hash":"0x1","pnl":-2,"pnl_usd":3}"#,
    );
    assert_eq!(m.agent_eth_address.as_deref(), Some("0xA"));
    assert_eq!(m.follower_pubkey.as_deref(), Some("F"));
    assert_eq!(m.role.as_deref(), Some("follower"));
    assert_eq!(m.symbol.as_deref(), Some("ETH"));
    assert_eq!(m.side.as_deref(), Some("sell"));
    assert_eq!(m.size.and_then(|n| n.as_f64()), Some(1.5));
    assert!(m.price.is_none());
    assert_eq!(m.status.as_deref(), Some("filled"));
    assert_eq!(m.tx_hash.as_deref(), Some("0x1"));
    assert_eq!(m.pnl.and_then(|n| n.as_f64()), Some(-2.0));
    assert_eq!(m.pnl_usd.and_then(|n| n.as_f64()), Some(3.0));
}

#[test]
fn signal_meta_of_garbage_is_empty() {
    let m = extract_signal_meta("{{{");
    assert!(m.agent_eth_address.is_none() && m.symbol.is_none() && m.size.is_none());
}

#[test]
fn trade_meta_defaults() {
    let t = extract_trade_meta(r#"{"symbol":"BTC","size":1,"price":100}"#).unwrap();
    assert_eq!(t.role, "leader");
    assert!(!t.is_test);
    assert!(t.tx_hash.is_none() && t.oid.is_none());
    assert_eq!(t.size.and_then(|n| n.as_f64()), Some(1.0));
    assert!(extract_trade_meta("nope").is_none());
}

#[test]
fn trade_meta_order_id_alias() {
    let t = extract_trade_meta(r#"{"order_id":"77","follower_pubkey":"F"}"#).unwrap();
    assert_eq!(t.oid.as_deref(), Some("77"));
    assert_eq!(t.follower_pubkey.as_deref(), Some("F"));
}

#[test]
fn trade_meta_test_flags() {
    assert!(extract_trade_meta(r#"{"oid":"1","test_mode":true}"#).unwrap().is_test);
    assert!(!extract_trade_meta(r#"{"oid":"1","test_mode":"true"}"#).unwrap().is_test);
    assert!(extract_trade_meta(r#"{"oid":"1","status":"SIMULATED"}"#).unwrap().is_test);
    assert!(extract_trade_meta(r#"{"oid":"1","status":"Simulated"}"#).unwrap().is_test);
    assert!(!extract_trade_meta(r#"{"oid":"1","status":"simulate"}"#).unwrap().is_test);
}

#[test]
fn registration_without_eth_is_refused() {
    let sender = "S".to_string();
    assert!(parse_registration(r#"{"bot_pubkey":"B","name":"x"}"#, &sender).is_none());
    assert!(parse_registration(r#"{"bot_pubkey":"B","eth_address":""}"#, &sender).is_none());
    assert!(parse_registration(r#"{"bot_pubkey":"B","eth_address":7}"#, &sender).is_none());
    assert!(parse_registration("garbage", &sender).is_none());
}

#[test]
fn registration_defaults_to_sender() {
    let sender = "S".to_string();
    let r = parse_registration(r#"{"account":"0xA"}"#, &sender).unwrap();
    assert_eq!(r.eth_address, "0xA");
    assert_eq!(r.bot_pubkey, "S");
    assert_eq!(r.nostr_pubkey, "S");
    assert_eq!(r.name, "agent");
}

#[test]
fn registration_reads_given_fields() {
    let sender = "S".to_string();
    let r = parse_registration(
        r#"{"bot_pubkey":"B","nostr_pubkey":"N","eth_address":"0xA","account":"0xZ","name":"x"}"#,
        &sender,
    )
    .unwrap();
    assert_eq!(r.bot_pubkey, "B");
    assert_eq!(r.nostr_pubkey, "N");
    assert_eq!(r.eth_address, "0xA");
    assert_eq!(r.name, "x");
}
