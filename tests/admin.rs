use moltrade_relayer::admin::{credits_query, is_token_valid, platform_key_rotation};
use moltrade_relayer::config::{
    default_allowed_kinds, default_batch_limit, default_credit_enable, default_explorer_base,
    default_pg_pool_size, default_poll_secs, default_subscription_daily_limit, relay_settings,
    resolve_allowed_kinds, FilterConfig, RelayConfig,
};
use moltrade_relayer::kinds::{classify_kind, MessageKind};

#[test]
fn token_check() {
    let t = "secret".to_string();
    let wrong = "nope".to_string();
    assert!(is_token_valid(None, None));
    assert!(is_token_valid(Some(&wrong), None));
    assert!(is_token_valid(Some(&t), Some(&t)));
    assert!(!is_token_valid(Some(&wrong), Some(&t)));
    assert!(!is_token_valid(None, Some(&t)));
}

#[test]
fn credits_query_variants() {
    let b = "B".to_string();
    let f = "F".to_string();
    let (q, p) = credits_query(None, None);
    assert_eq!(q, "SELECT bot_pubkey, follower_pubkey, credits FROM credits ORDER BY credits DESC");
    assert!(p.is_empty());
    let (q, p) = credits_query(Some(&b), None);
    assert_eq!(q, "SELECT bot_pubkey, follower_pubkey, credits FROM credits WHERE bot_pubkey = $1 ORDER BY credits DESC");
    assert_eq!(p, vec!["B".to_string()]);
    let (q, p) = credits_query(None, Some(&f));
    assert_eq!(q, "SELECT bot_pubkey, follower_pubkey, credits FROM credits WHERE follower_pubkey = $1 ORDER BY credits DESC");
    assert_eq!(p, vec!["F".to_string()]);
    let (q, p) = credits_query(Some(&b), Some(&f));
    assert_eq!(
        q,
        "SELECT bot_pubkey, follower_pubkey, credits FROM credits WHERE bot_pubkey = $1 AND follower_pubkey = $2 ORDER BY credits DESC"
    );
    assert_eq!(p, vec!["B".to_string(), "F".to_string()]);
}

#[test]
fn platform_key_rotation_from_old_to_new() {
    let old = "OLD".to_string();
    let new = "NEW".to_string();
    let r = platform_key_rotation(Some(&old), &new).unwrap();
    assert_eq!(r.new_pubkey, "NEW");
    assert_eq!(r.previous_pubkey.as_deref(), Some("OLD"));
    assert!(platform_key_rotation(Some(&new), &new).is_none());
    let first = platform_key_rotation(None, &new).unwrap();
    assert!(first.previous_pubkey.is_none());
}

#[test]
fn config_defaults() {
    assert_eq!(default_allowed_kinds(), vec![30931, 30932, 30933, 30934]);
    assert_eq!(default_pg_pool_size(), 5);
    assert_eq!(default_explorer_base(), "https://app.hyperliquid.xyz/explorer/transaction");
    assert_eq!(default_poll_secs(), 30);
    assert_eq!(default_batch_limit(), 50);
    assert!(default_credit_enable());
    assert_eq!(default_subscription_daily_limit(), 1000);
    assert!(FilterConfig::default().allowed_kinds.is_empty());
}

#[test]
fn allow_list_resolution() {
    assert_eq!(resolve_allowed_kinds(None), None);
    assert_eq!(resolve_allowed_kinds(Some(&FilterConfig { allowed_kinds: vec![] })), None);
    assert_eq!(resolve_allowed_kinds(Some(&FilterConfig { allowed_kinds: vec![30931] })), Some(vec![30931]));
}

#[test]
fn relay_settings_defaults() {
    assert_eq!(relay_settings(None), (30, 10000));
    let c = RelayConfig { bootstrap_relays: vec![], max_connections: 7, health_check_interval: 12 };
    assert_eq!(relay_settings(Some(&c)), (12, 7));
}

#[test]
fn kind_classification() {
    assert_eq!(classify_kind(30931), MessageKind::TradeSignal);
    assert_eq!(classify_kind(30932), MessageKind::CopyTradeIntent);
    assert_eq!(classify_kind(30933), MessageKind::Heartbeat);
    assert_eq!(classify_kind(30934), MessageKind::ExecutionReport);
    assert_eq!(classify_kind(30935), MessageKind::AgentRegister);
    assert_eq!(classify_kind(39990), MessageKind::PlatformKeyRotation);
    assert_eq!(classify_kind(1), MessageKind::Unknown);
}
