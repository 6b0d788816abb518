use vstd::prelude::*;

use crate::kinds::{KIND_COPYTRADE_INTENT, KIND_EXECUTION_REPORT, KIND_HEARTBEAT, KIND_TRADE_SIGNAL};

verus! {

/// Upstream relay settings.
#[derive(Clone, Debug)]
pub struct RelayConfig {
    pub bootstrap_relays: Vec<String>,
    pub max_connections: usize,
    /// Seconds between health checks.
    pub health_check_interval: u64,
}

/// Deduplication engine settings.
#[derive(Clone, Debug)]
pub struct DeduplicationConfig {
    pub hotset_size: usize,
    pub bloom_capacity: usize,
    pub lru_size: usize,
    pub rocksdb_path: String,
}

/// Downstream output settings.
#[derive(Clone, Debug)]
pub struct OutputConfig {
    pub websocket_enabled: bool,
    pub websocket_port: u16,
    pub batch_size: usize,
    pub max_latency_ms: u64,
}

/// Kind allow-list; empty means no filtering.
#[derive(Clone, Debug)]
pub struct FilterConfig {
    pub allowed_kinds: Vec<u16>,
}

impl Default for FilterConfig {
    fn default() -> (r: FilterConfig)
        ensures
            r.allowed_kinds@.len() == 0,
    {
        FilterConfig { allowed_kinds: Vec::new() }
    }
}

/// Metrics and logging settings.
#[derive(Clone, Debug)]
pub struct MonitoringConfig {
    pub prometheus_port: u16,
    pub log_level: String,
}

/// Relational store settings.
#[derive(Clone, Debug)]
pub struct PostgresConfig {
    pub dsn: String,
    pub max_connections: usize,
}

/// Platform key settings.
#[derive(Clone, Debug)]
pub struct NostrConfig {
    /// Platform secret key (hex or bech32), used to decrypt inbound and
    /// encrypt outbound payloads.
    pub secret_key: String,
}

/// Follower subscription settings.
#[derive(Clone, Debug)]
pub struct SubscriptionsConfig {
    pub daily_limit: u64,
}

/// The kinds accepted when a filter section names none: the trade signal,
/// copy-trade intent, heartbeat and execution report.
pub fn default_allowed_kinds() -> (r: Vec<u16>)
    ensures
        r@ == seq![KIND_TRADE_SIGNAL, KIND_COPYTRADE_INTENT, KIND_HEARTBEAT, KIND_EXECUTION_REPORT],
{
    let r = vec![KIND_TRADE_SIGNAL, KIND_COPYTRADE_INTENT, KIND_HEARTBEAT, KIND_EXECUTION_REPORT];
    assert(r@ =~= seq![KIND_TRADE_SIGNAL, KIND_COPYTRADE_INTENT, KIND_HEARTBEAT, KIND_EXECUTION_REPORT]);
    r
}

/// Default size of the database connection pool.
pub fn default_pg_pool_size() -> (r: usize)
    ensures
        r == 5,
{
    5
}

/// Default explorer endpoint for transaction lookups.
pub fn default_explorer_base() -> (r: String)
    ensures
        r@ == "https://app.hyperliquid.xyz/explorer/transaction"@,
{
    String::from_str("https://app.hyperliquid.xyz/explorer/transaction")
}

/// Default seconds between settlement ticks.
pub fn default_poll_secs() -> (r: u64)
    ensures
        r == 30,
{
    30
}

/// Default number of pending trades examined per settlement tick.
pub fn default_batch_limit() -> (r: i64)
    ensures
        r == 50,
{
    50
}

/// Credit awards are on unless configured off.
pub fn default_credit_enable() -> (r: bool)
    ensures
        r,
{
    true
}

/// Default daily subscription limit.
pub fn default_subscription_daily_limit() -> (r: u64)
    ensures
        r == 1000,
{
    1000
}

/// The allow-list in force: the configured kinds, or none (no filtering)
/// when there is no filter section or it lists no kind.
pub fn resolve_allowed_kinds(filters: Option<&FilterConfig>) -> (r: Option<Vec<u16>>)
    ensures
        r matches Some(v) ==> filters matches Some(f) && v@ == f.allowed_kinds@ && v@.len() > 0,
        r is None ==> (filters matches Some(f) ==> f.allowed_kinds@.len() == 0),
{
    match filters {
        Some(f) => if f.allowed_kinds.len() > 0 {
            let mut v: Vec<u16> = Vec::new();
            let mut i: usize = 0;
            while i < f.allowed_kinds.len()
                invariant
                    0 <= i <= f.allowed_kinds@.len(),
                    v@ == f.allowed_kinds@.subrange(0, i as int),
                decreases f.allowed_kinds@.len() - i,
            {
                v.push(f.allowed_kinds[i]);
                i = i + 1;
                assert(v@ =~= f.allowed_kinds@.subrange(0, i as int));
            }
            assert(v@ =~= f.allowed_kinds@);
            Some(v)
        } else {
            None
        },
        None => None,
    }
}

/// Health-check interval (seconds) and connection cap: from the relay section,
/// else 30 seconds and 10 000 connections.
pub fn relay_settings(relay: Option<&RelayConfig>) -> (r: (u64, usize))
    ensures
        r == (match relay {
            Some(c) => (c.health_check_interval, c.max_connections),
            None => (30u64, 10000usize),
        }),
{
    match relay {
        Some(c) => (c.health_check_interval, c.max_connections),
        None => (30, 10000),
    }
}

} // verus!
