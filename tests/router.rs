use moltrade_relayer::dedup::{BloomFilter, DedupEngine};
use moltrade_relayer::router::{is_stale, EventRouter, InboundEvent, IngestOutcome};

fn ev(id: &str, kind: u16, created_at: u64) -> InboundEvent {
    InboundEvent {
        id: id.to_string(),
        pubkey: "leader".to_string(),
        kind,
        created_at,
        content: String::new(),
    }
}

fn ids(out: &[InboundEvent]) -> Vec<String> {
    out.iter().map(|e| e.id.clone()).collect()
}

const NOW: u64 = 1_700_000_000;

#[test]
fn dedup_reports_only_recorded_ids() {
    let mut engine = DedupEngine::new(4, 1000, 4);
    assert!(!engine.is_duplicate(&"a".to_string()));
    engine.record_forwarded("a".to_string());
    assert!(engine.is_duplicate(&"a".to_string()));
    assert!(!engine.is_duplicate(&"b".to_string()));
    assert_eq!(engine.stats().index_count, 1);
}

#[test]
fn dedup_index_outlives_cache_eviction() {
    let mut engine = DedupEngine::new(2, 1000, 2);
    for id in ["a", "b", "c", "d", "e"] {
        engine.record_forwarded(id.to_string());
    }
    let stats = engine.stats();
    assert_eq!(stats.hot_set_size, 2);
    assert_eq!(stats.lru_cache_size, 2);
    assert_eq!(stats.index_count, 5);
    assert!(engine.is_duplicate(&"a".to_string()));
}

#[test]
fn warm_start_preloads_newest_ids() {
    let log: Vec<String> = ["a", "b", "c"].iter().map(|s| s.to_string()).collect();
    let mut engine = DedupEngine::warm_start(log, 2, 1000, 1);
    let stats = engine.stats();
    assert_eq!(stats.hot_set_size, 2);
    assert_eq!(stats.lru_cache_size, 1);
    assert_eq!(stats.index_count, 3);
    assert!(engine.is_duplicate(&"a".to_string()));
    assert!(!engine.is_duplicate(&"z".to_string()));
}

#[test]
fn restart_over_forward_index_sends_nothing_again() {
    let mut router = EventRouter::new(DedupEngine::new(10, 1000, 10), 3, None);
    let mut persisted: Vec<String> = Vec::new();
    for (i, id) in ["a", "b", "c"].iter().enumerate() {
        router.ingest(ev(id, 30931, NOW - 10 + i as u64));
    }
    let out = router.flush_batch(NOW);
    assert_eq!(out.len(), 3);
    persisted.extend(ids(&out));

    let mut restarted = EventRouter::new(DedupEngine::warm_start(persisted, 10, 1000, 10), 3, None);
    for id in ["a", "b", "c"] {
        assert_eq!(restarted.ingest(ev(id, 30931, NOW)), IngestOutcome::Duplicate);
    }
    assert_eq!(restarted.pending_len(), 0);
    assert!(restarted.flush_batch(NOW).is_empty());
    assert!(restarted.flush_all(NOW).is_empty());
}

#[test]
fn serialized_duplicate_is_forwarded_once() {
    let mut router = EventRouter::new(DedupEngine::new(10, 1000, 10), 1, None);
    assert_eq!(router.ingest(ev("x", 30931, NOW)), IngestOutcome::FlushDue);
    assert_eq!(ids(&router.flush_batch(NOW)), vec!["x".to_string()]);
    assert_eq!(router.ingest(ev("x", 30931, NOW)), IngestOutcome::Duplicate);
    assert!(router.flush_batch(NOW).is_empty());
}

#[test]
fn duplicate_within_one_batch_is_forwarded_once() {
    let mut router = EventRouter::new(DedupEngine::new(10, 1000, 10), 10, None);
    assert_eq!(router.ingest(ev("x", 30931, NOW - 2)), IngestOutcome::Buffered);
    assert_eq!(router.ingest(ev("x", 30931, NOW - 1)), IngestOutcome::Buffered);
    assert_eq!(ids(&router.flush_batch(NOW)), vec!["x".to_string()]);
}

#[test]
fn batch_is_sent_in_creation_order() {
    let mut router = EventRouter::new(DedupEngine::new(10, 1000, 10), 4, None);
    router.ingest(ev("t5", 30931, NOW - 5));
    router.ingest(ev("t3", 30931, NOW - 30));
    router.ingest(ev("t9", 30931, NOW - 1));
    assert_eq!(router.ingest(ev("t1", 30931, NOW - 100)), IngestOutcome::FlushDue);
    let out = router.flush_batch(NOW);
    assert_eq!(ids(&out), vec!["t1", "t3", "t5", "t9"]);
    assert!(out.windows(2).all(|w| w[0].created_at <= w[1].created_at));
}

#[test]
fn flush_takes_the_oldest_batch() {
    let mut router = EventRouter::new(DedupEngine::new(10, 1000, 10), 2, None);
    router.ingest(ev("c", 30931, NOW - 10));
    router.ingest(ev("d", 30931, NOW - 5));
    router.ingest(ev("a", 30931, NOW - 40));
    router.ingest(ev("b", 30931, NOW - 20));
    assert_eq!(ids(&router.flush_batch(NOW)), vec!["a", "b"]);
    assert_eq!(router.pending_len(), 2);
    assert_eq!(ids(&router.flush_batch(NOW)), vec!["c", "d"]);
}

#[test]
fn stale_event_is_dropped_and_not_recorded() {
    let mut router = EventRouter::new(DedupEngine::new(10, 1000, 10), 1, None);
    router.ingest(ev("old", 30931, NOW - 900));
    assert!(router.flush_batch(NOW).is_empty());
    assert_eq!(router.ingest(ev("old", 30931, NOW)), IngestOutcome::FlushDue);
}

#[test]
fn staleness_threshold_is_ten_minutes() {
    assert!(!is_stale(NOW, NOW - 600));
    assert!(is_stale(NOW, NOW - 601));
    assert!(!is_stale(NOW, NOW + 5));
}

#[test]
fn shutdown_flush_drains_everything_in_order() {
    let mut router = EventRouter::new(DedupEngine::new(10, 1000, 10), 100, None);
    router.ingest(ev("b", 30931, NOW - 90));
    router.ingest(ev("a", 30931, NOW - 100));
    router.ingest(ev("old", 30931, NOW - 900));
    assert_eq!(ids(&router.flush_all(NOW)), vec!["a", "b"]);
    assert_eq!(router.pending_len(), 0);
}

#[test]
fn allow_list_filters_other_kinds() {
    let mut router = EventRouter::new(DedupEngine::new(10, 1000, 10), 100, Some(vec![30931, 30933]));
    assert_eq!(router.ingest(ev("a", 30932, NOW)), IngestOutcome::KindFiltered);
    assert_eq!(router.ingest(ev("b", 39990, NOW)), IngestOutcome::KindFiltered);
    assert_eq!(router.ingest(ev("c", 30931, NOW)), IngestOutcome::Buffered);
    assert_eq!(router.ingest(ev("d", 30933, NOW)), IngestOutcome::Buffered);
    let out = router.flush_all(NOW);
    assert!(out.iter().all(|e| e.kind == 30931 || e.kind == 30933));
    assert_eq!(out.len(), 2);
}

#[test]
fn allow_list_of_one_kind_over_a_hundred_events() {
    let mut router = EventRouter::new(DedupEngine::new(200, 1000, 200), 10, Some(vec![30931]));
    let kinds = [30931u16, 30932, 30933];
    let mut sent = 0usize;
    for i in 0..100u64 {
        let kind = kinds[(i % 3) as usize];
        if router.ingest(ev(&format!("e{}", i), kind, NOW - 100 + i)) == IngestOutcome::FlushDue {
            sent += router.flush_batch(NOW).len();
        }
    }
    sent += router.flush_all(NOW).len();
    assert_eq!(sent, 34);
}

#[test]
fn heartbeat_updates_are_throttled_per_bot() {
    let mut router = EventRouter::new(DedupEngine::new(10, 1000, 10), 10, None);
    let hb = InboundEvent { pubkey: "bot1".to_string(), ..ev("h", 30933, NOW) };
    let other = InboundEvent { pubkey: "bot2".to_string(), ..ev("h2", 30933, NOW) };
    assert!(router.maybe_update_last_seen(&hb, 1000));
    assert!(!router.maybe_update_last_seen(&hb, 1000 + 899));
    assert!(router.maybe_update_last_seen(&other, 1001));
    assert!(router.maybe_update_last_seen(&hb, 1000 + 900));
    let signal = ev("s", 30931, NOW);
    assert!(!router.maybe_update_last_seen(&signal, 5000));
}

#[test]
fn bloom_filter_is_sized_from_capacity() {
    assert_eq!(DedupEngine::new(1, 1000, 1).stats().bloom_filter_bits, 10048);
    assert_eq!(DedupEngine::new(1, 0, 1).stats().bloom_filter_bits, 64);
}

#[test]
fn bloom_filter_never_forgets_an_id() {
    let mut filter = BloomFilter::new(50);
    let ids: Vec<String> = (0..200).map(|i| format!("{:064x}", i * 7919)).collect();
    for id in &ids {
        filter.insert(id);
    }
    assert!(ids.iter().all(|id| filter.maybe_contains(id)));
}

#[test]
fn dedup_answers_exactly_across_many_ids() {
    let mut engine = DedupEngine::new(8, 100, 8);
    for i in 0..300u32 {
        engine.record_forwarded(format!("id-{}", i));
    }
    for i in 0..300u32 {
        assert!(engine.is_duplicate(&format!("id-{}", i)));
    }
    for i in 300..400u32 {
        assert!(!engine.is_duplicate(&format!("id-{}", i)));
    }
}

#[test]
fn forward_index_scan_is_newest_first() {
    let log: Vec<String> = ["a", "b", "c", "d"].iter().map(|s| s.to_string()).collect();
    let engine = DedupEngine::warm_start(log, 2, 100, 2);
    assert_eq!(engine.iterate_forward_desc(3), vec!["d".to_string(), "c".to_string(), "b".to_string()]);
    assert_eq!(engine.iterate_forward_desc(10).len(), 4);
    assert!(engine.iterate_forward_desc(0).is_empty());
}

#[test]
fn zero_batch_size_flushes_nothing() {
    let mut router = EventRouter::new(DedupEngine::new(10, 1000, 10), 0, None);
    assert_eq!(router.ingest(ev("b", 30931, NOW - 5)), IngestOutcome::FlushDue);
    router.ingest(ev("a", 30931, NOW - 9));
    assert!(router.flush_batch(NOW).is_empty());
    assert_eq!(router.pending_len(), 2);
    let stats = router.dedup_stats();
    assert_eq!(stats.index_count, 0);
}
