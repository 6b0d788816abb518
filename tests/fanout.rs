use moltrade_relayer::fanout::{
    dispatch_decrypted, fanout_messages, handle_copytrade_fanout, maybe_record_trade, plan_payload,
    signal_record, BotRecord, EventOutcome, PayloadPlan, PlatformKey, SubscriptionRow,
};
use moltrade_relayer::payload::{extract_agent_eth, extract_signal_meta, parse_registration};
use moltrade_relayer::router::InboundEvent;

fn ev(pubkey: &str, kind: u16) -> InboundEvent {
    InboundEvent {
        id: "e1".to_string(),
        pubkey: pubkey.to_string(),
        kind,
        created_at: 1_700_000_000,
        content: String::new(),
    }
}

fn platform() -> PlatformKey {
    PlatformKey { pubkey_hex: "P".to_string(), secret: "not-a-key".to_string() }
}

#[test]
fn own_echo_is_not_decrypted() {
    let p = platform();
    assert!(matches!(handle_copytrade_fanout(&ev("P", 30931), Some(&p)), EventOutcome::SelfEcho));
    assert!(matches!(handle_copytrade_fanout(&ev("L", 30931), Some(&p)), EventOutcome::Undecryptable));
    assert!(matches!(handle_copytrade_fanout(&ev("L", 30934), Some(&p)), EventOutcome::Undecryptable));
}

#[test]
fn classifier_kinds() {
    let p = platform();
    assert!(matches!(handle_copytrade_fanout(&ev("L", 30933), Some(&p)), EventOutcome::Ignore));
    assert!(matches!(handle_copytrade_fanout(&ev("L", 39990), Some(&p)), EventOutcome::Ignore));
    assert!(matches!(handle_copytrade_fanout(&ev("L", 1), Some(&p)), EventOutcome::Ignore));
    assert!(matches!(handle_copytrade_fanout(&ev("L", 30935), Some(&p)), EventOutcome::RegistrationRefused));
    assert!(matches!(handle_copytrade_fanout(&ev("L", 30931), None), EventOutcome::Ignore));
    let reg = InboundEvent { content: r#"{"eth_address":"0xA"}"#.to_string(), ..ev("L", 30935) };
    match handle_copytrade_fanout(&reg, None) {
        EventOutcome::Register(r) => {
            assert_eq!(r.bot_pubkey, "L");
            assert_eq!(r.eth_address, "0xA");
            assert_eq!(r.name, "agent");
        }
        _ => panic!("expected a registration"),
    }
}

#[test]
fn dispatch_without_bot_logs_signal_only() {
    let signal = ev("L", 30931);
    let plaintext = r#"{"agent":"0xZ","symbol":"ETH","tx_hash":"0x1"}"#.to_string();
    let followers = vec![SubscriptionRow { follower_pubkey: "F".to_string(), shared_secret: "K".to_string() }];
    let d = dispatch_decrypted(&signal, &plaintext, None, &followers, &"k".to_string());
    let sr = d.signal.unwrap();
    assert!(sr.bot_pubkey.is_none());
    assert_eq!(sr.agent_eth_address.as_deref(), Some("0xZ"));
    assert!(d.trade.is_none() && d.pushes.is_empty() && d.publications.is_empty());
    let intent = ev("L", 30932);
    let d2 = dispatch_decrypted(&intent, &plaintext, None, &followers, &"k".to_string());
    assert!(d2.signal.is_none());
}

#[test]
fn dispatch_with_bot_writes_and_fans_out() {
    let intent = ev("L", 30932);
    let plaintext = r#"{"agent":"0xA","order_id":"9","size":2,"price":3}"#.to_string();
    let bot = BotRecord { bot_pubkey: "B".to_string(), nostr_pubkey: "B".to_string(), eth_address: "0xA".to_string() };
    let followers = vec![
        SubscriptionRow { follower_pubkey: "F1".to_string(), shared_secret: "bad".to_string() },
        SubscriptionRow { follower_pubkey: "F2".to_string(), shared_secret: "bad2".to_string() },
    ];
    let d = dispatch_decrypted(&intent, &plaintext, Some(&bot), &followers, &"k".to_string());
    assert!(d.signal.is_none());
    let w = d.trade.unwrap();
    assert_eq!(w.oid.as_deref(), Some("9"));
    assert_eq!(w.size.and_then(|n| n.as_f64()), Some(2.0));
    assert_eq!(w.price.and_then(|n| n.as_f64()), Some(3.0));
    assert_eq!(d.pushes.len(), 2);
    assert_eq!(d.pushes[1].target_pubkey, "F2");
    assert_eq!(d.pushes[0].payload, plaintext);
    assert_eq!(d.publications.len(), 2);
    assert_eq!(d.publications[0].0, "bad");
    assert!(d.publications.iter().all(|p| p.1.is_none()));
}

#[test]
fn trade_write_falls_back_to_event_id() {
    let w = maybe_record_trade(r#"{"symbol":"BTC"}"#, &"B".to_string(), &"e1".to_string()).unwrap();
    assert_eq!(w.oid.as_deref(), Some("e1"));
    assert_eq!(w.bot_pubkey, "B");
    assert_eq!(w.symbol, "BTC");
    assert_eq!(w.side, "");
    assert_eq!(w.role, "leader");
    assert!(w.settlement.is_none());
    assert!(maybe_record_trade("x", &"B".to_string(), &"e1".to_string()).is_none());
}

#[test]
fn trade_write_carries_settlement() {
    let w = maybe_record_trade(r#"{"tx_hash":"0x1","pnl_usd":4}"#, &"B".to_string(), &"e1".to_string())
        .unwrap();
    assert_eq!(w.tx_hash.as_deref(), Some("0x1"));
    let u = w.settlement.unwrap();
    assert_eq!(u.status, "pending");
    assert!(u.pnl.is_none());
    assert_eq!(u.pnl_usd.and_then(|n| n.as_f64()), Some(4.0));
    let w2 = maybe_record_trade(r#"{"oid":"9","status":"filled"}"#, &"B".to_string(), &"e1".to_string())
        .unwrap();
    assert_eq!(w2.oid.as_deref(), Some("9"));
    assert_eq!(w2.settlement.unwrap().status, "filled");
}

#[test]
fn fanout_one_message_per_follower() {
    let followers = vec![
        SubscriptionRow { follower_pubkey: "F1".to_string(), shared_secret: "K1".to_string() },
        SubscriptionRow { follower_pubkey: "F2".to_string(), shared_secret: "K2".to_string() },
    ];
    let msgs = fanout_messages(&followers, &"B".to_string(), 30931, &"e1".to_string(), &"{}".to_string());
    assert_eq!(msgs.len(), 2);
    assert_eq!(msgs[0].target_pubkey, "F1");
    assert_eq!(msgs[1].target_pubkey, "F2");
    assert!(msgs.iter().all(|m| m.bot_pubkey == "B" && m.kind == 30931 && m.original_event_id == "e1" && m.payload == "{}"));
    assert!(fanout_messages(&Vec::new(), &"B".to_string(), 30931, &"e1".to_string(), &"{}".to_string()).is_empty());
}

#[test]
fn register_subscribe_signal_fanout() {
    let reg = parse_registration(r#"{"bot_pubkey":"B","eth_address":"0xA","name":"x"}"#, &"B".to_string())
        .unwrap();
    assert_eq!((reg.bot_pubkey.as_str(), reg.eth_address.as_str(), reg.name.as_str()), ("B", "0xA", "x"));

    let signal = ev("B", 30931);
    let p = platform();
    assert!(matches!(handle_copytrade_fanout(&signal, Some(&p)), EventOutcome::Undecryptable));
    let plaintext = r#"{"agent_eth_address":"0xA","symbol":"BTC","side":"buy","size":1,"price":100}"#.to_string();
    assert_eq!(extract_agent_eth(&plaintext).as_deref(), Some(reg.eth_address.as_str()));

    let meta = extract_signal_meta(&plaintext);
    let record = signal_record(&signal, &plaintext, meta, Some(reg.bot_pubkey.clone()));
    assert_eq!(record.event_id, "e1");
    assert_eq!(record.bot_pubkey.as_deref(), Some("B"));
    assert_eq!(record.leader_pubkey, "B");
    assert_eq!(record.symbol.as_deref(), Some("BTC"));
    assert_eq!(record.price.and_then(|n| n.as_f64()), Some(100.0));
    assert_eq!(record.raw_content, plaintext);
    assert_eq!(record.event_created_at, 1_700_000_000);

    let trade = maybe_record_trade(&plaintext, &reg.bot_pubkey, &signal.id).unwrap();
    assert_eq!(trade.oid.as_deref(), Some("e1"));
    assert!(trade.tx_hash.is_none());
    assert!(trade.settlement.is_none());

    let followers = vec![SubscriptionRow { follower_pubkey: "F".to_string(), shared_secret: "F_PK_HEX".to_string() }];
    let msgs = fanout_messages(&followers, &reg.bot_pubkey, signal.kind, &signal.id, &plaintext);
    assert_eq!(msgs.len(), 1);
    assert_eq!(msgs[0].target_pubkey, "F");
}

#[test]
fn payload_plans() {
    match plan_payload(30931, r#"{"agent":"0xA"}"#) {
        PayloadPlan::ResolveBot { eth, log_signal } => {
            assert_eq!(eth, "0xA");
            assert!(log_signal);
        }
        _ => panic!("expected a bot lookup"),
    }
    match plan_payload(30934, r#"{"account":"0xB"}"#) {
        PayloadPlan::ResolveBot { eth, log_signal } => {
            assert_eq!(eth, "0xB");
            assert!(!log_signal);
        }
        _ => panic!("expected a bot lookup"),
    }
    assert!(matches!(plan_payload(30931, r#"{"symbol":"BTC"}"#), PayloadPlan::LogSignalOnly));
    assert!(matches!(plan_payload(30932, r#"{"symbol":"BTC"}"#), PayloadPlan::Drop));
    assert!(matches!(plan_payload(30932, "not json"), PayloadPlan::Drop));
}
