use moltrade_relayer::relay_pool::{retry_delay, ConnectionStatus, RelayPool};

fn s(x: &str) -> String {
    x.to_string()
}

#[test]
fn dial_handshake_and_count() {
    let mut pool = RelayPool::new(30, 10, Some(vec![30931]));
    assert!(pool.connect_and_subscribe(s("wss://a")));
    assert!(!pool.connect_and_subscribe(s("wss://a")));
    assert_eq!(pool.active_connections(), 0);
    assert!(pool.on_connected(&s("wss://a"), 100));
    assert_eq!(pool.active_connections(), 1);
    assert_eq!(pool.get_connection_statuses(), vec![(s("wss://a"), ConnectionStatus::Subscribed)]);
    assert_eq!(pool.subscription_kinds(), Some(vec![30931]));
}

#[test]
fn dial_cap_limits_concurrent_attempts() {
    let mut pool = RelayPool::new(30, 2, None);
    let dial = pool.subscribe_all(vec![s("wss://a"), s("wss://b"), s("wss://c")]);
    assert_eq!(dial, vec![s("wss://a"), s("wss://b")]);
    assert_eq!(pool.list_relays(), vec![s("wss://a"), s("wss://b")]);
}

#[test]
fn io_error_backs_off_and_health_check_redials() {
    let mut pool = RelayPool::new(30, 10, None);
    pool.connect_and_subscribe(s("wss://a"));
    pool.on_connected(&s("wss://a"), 100);
    assert_eq!(pool.on_io_error(&s("wss://a")), 2);
    assert_eq!(pool.on_io_error(&s("wss://a")), 4);
    assert_eq!(pool.active_connections(), 0);
    assert_eq!(pool.health_check(200), vec![s("wss://a")]);
    assert_eq!(pool.get_connection_statuses()[0].1, ConnectionStatus::Connecting);
}

#[test]
fn stale_connection_is_redialled() {
    let mut pool = RelayPool::new(30, 10, None);
    pool.connect_and_subscribe(s("wss://a"));
    pool.on_connected(&s("wss://a"), 100);
    assert!(pool.health_check(160).is_empty());
    pool.on_frame(&s("wss://a"), 150);
    assert!(pool.health_check(210).is_empty());
    assert_eq!(pool.health_check(211), vec![s("wss://a")]);
}

#[test]
fn retired_relay_is_not_redialled() {
    let mut pool = RelayPool::new(30, 10, None);
    pool.connect_and_subscribe(s("wss://a"));
    assert!(pool.disconnect_relay(&s("wss://a")));
    assert!(!pool.disconnect_relay(&s("wss://zzz")));
    assert!(pool.health_check(10_000).is_empty());
    assert!(pool.connect_and_subscribe(s("wss://a")));
}

#[test]
fn retry_delay_doubles_up_to_cap() {
    assert_eq!(retry_delay(0), 1);
    assert_eq!(retry_delay(1), 2);
    assert_eq!(retry_delay(3), 8);
    assert_eq!(retry_delay(8), 256);
    assert_eq!(retry_delay(9), 300);
    assert_eq!(retry_delay(u32::MAX), 300);
}

#[test]
fn failed_handshake_is_retried_by_health_check() {
    let mut pool = RelayPool::new(30, 10, None);
    pool.connect_and_subscribe(s("wss://a"));
    assert_eq!(pool.on_handshake_failed(&s("wss://a")), 2);
    assert_eq!(pool.get_connection_statuses()[0].1, ConnectionStatus::Failed);
    assert_eq!(pool.health_check(5), vec![s("wss://a")]);
}
