use vstd::prelude::*;
use vstd::multiset::Multiset;
use vstd::seq_lib::{to_multiset_insert, to_multiset_remove};

use crate::dedup::{DedupEngine, DedupStats};
use crate::heartbeat::{HeartbeatThrottle, heartbeat_due};
use crate::kinds::KIND_HEARTBEAT;

verus! {

/// Events older than this many seconds are not forwarded.
pub const STALE_AFTER_SECS: u64 = 600;

/// An event as received from an upstream relay.
pub struct InboundEvent {
    /// Content-hash id, hex.
    pub id: String,
    /// Sender public key, hex.
    pub pubkey: String,
    pub kind: u16,
    /// Creation time, seconds since the epoch.
    pub created_at: u64,
    pub content: String,
}

/// What became of an ingested event.
#[derive(Clone, Copy, Debug, PartialEq, Eq, Structural)]
pub enum IngestOutcome {
    /// Its kind is not on the allow-list.
    KindFiltered,
    /// Its id was already forwarded.
    Duplicate,
    /// Buffered; the buffer is still below the batch size.
    Buffered,
    /// Buffered; the buffer reached the batch size and a flush is due.
    FlushDue,
}

pub open spec fn stale(now: u64, created_at: u64) -> bool {
    now > created_at && now - created_at > STALE_AFTER_SECS
}

/// Whether an event created at `created_at` is too old to forward at `now`.
pub fn is_stale(now: u64, created_at: u64) -> (r: bool)
    ensures
        r == stale(now, created_at),
{
    now > created_at && now - created_at > STALE_AFTER_SECS
}

pub open spec fn kind_allowed(allowed: Option<Seq<u16>>, kind: u16) -> bool {
    match allowed {
        None => true,
        Some(ks) => ks.contains(kind),
    }
}

pub open spec fn event_ids(s: Seq<InboundEvent>) -> Seq<Seq<char>> {
    s.map_values(|e: InboundEvent| e.id@)
}

pub open spec fn sorted_by_time(s: Seq<InboundEvent>) -> bool {
    forall|i: int, j: int| 0 <= i <= j < s.len() ==> s[i].created_at <= s[j].created_at
}

pub open spec fn ingest_outcome(
    allowed: Option<Seq<u16>>,
    forwarded: Set<Seq<char>>,
    pending_len: nat,
    batch_size: nat,
    ev: InboundEvent,
) -> IngestOutcome {
    if !kind_allowed(allowed, ev.kind) {
        IngestOutcome::KindFiltered
    } else if forwarded.contains(ev.id@) {
        IngestOutcome::Duplicate
    } else if pending_len + 1 >= batch_size {
        IngestOutcome::FlushDue
    } else {
        IngestOutcome::Buffered
    }
}

/// The events of `batch` that are forwarded, in order: with `gate` set, stale
/// ones are skipped; an id in `seen`, or forwarded earlier in the batch, is
/// skipped as a duplicate.
pub open spec fn forward_pass(
    batch: Seq<InboundEvent>,
    seen: Set<Seq<char>>,
    now: u64,
    gate: bool,
) -> Seq<InboundEvent>
    decreases batch.len(),
{
    if batch.len() == 0 {
        Seq::empty()
    } else {
        let e = batch[0];
        if (gate && stale(now, e.created_at)) || seen.contains(e.id@) {
            forward_pass(batch.drop_first(), seen, now, gate)
        } else {
            seq![e] + forward_pass(batch.drop_first(), seen.insert(e.id@), now, gate)
        }
    }
}

/// Every event that `forward_pass` lets through comes from the batch, is not
/// stale when gated, and has an id outside `seen`; the ids are distinct.
pub proof fn lemma_forward_pass_members(
    batch: Seq<InboundEvent>,
    seen: Set<Seq<char>>,
    now: u64,
    gate: bool,
)
    ensures
        forall|i: int|
            0 <= i < forward_pass(batch, seen, now, gate).len() ==> {
                let e = #[trigger] forward_pass(batch, seen, now, gate)[i];
                &&& batch.contains(e)
                &&& !seen.contains(e.id@)
                &&& gate ==> !stale(now, e.created_at)
            },
        event_ids(forward_pass(batch, seen, now, gate)).no_duplicates(),
    decreases batch.len(),
{
    if batch.len() > 0 {
        let e = batch[0];
        let rest = batch.drop_first();
        if (gate && stale(now, e.created_at)) || seen.contains(e.id@) {
            lemma_forward_pass_members(rest, seen, now, gate);
            assert forall|i: int| 0 <= i < forward_pass(batch, seen, now, gate).len() implies
                batch.contains(#[trigger] forward_pass(batch, seen, now, gate)[i]) by {
                let x = forward_pass(rest, seen, now, gate)[i];
                let k = choose|k: int| 0 <= k < rest.len() && rest[k] == x;
                assert(batch[k + 1] == x);
            }
        } else {
            let s2 = seen.insert(e.id@);
            lemma_forward_pass_members(rest, s2, now, gate);
            let tail = forward_pass(rest, s2, now, gate);
            let out = forward_pass(batch, seen, now, gate);
            assert(out == seq![e] + tail);
            assert forall|i: int| 0 <= i < out.len() implies {
                let x = #[trigger] out[i];
                &&& batch.contains(x)
                &&& !seen.contains(x.id@)
                &&& gate ==> !stale(now, x.created_at)
            } by {
                if i == 0 {
                    assert(batch[0] == e);
                } else {
                    let x = tail[i - 1];
                    assert(out[i] == x);
                    let k = choose|k: int| 0 <= k < rest.len() && rest[k] == x;
                    assert(batch[k + 1] == x);
                    assert(!s2.contains(x.id@));
                }
            }
            assert forall|i: int, j: int|
                0 <= i < event_ids(out).len() && 0 <= j < event_ids(out).len() && i != j implies
                event_ids(out)[i] != event_ids(out)[j] by {
                if i == 0 && j > 0 {
                    assert(!s2.contains(tail[j - 1].id@));
                } else if j == 0 && i > 0 {
                    assert(!s2.contains(tail[i - 1].id@));
                } else if i > 0 && j > 0 {
                    assert(event_ids(tail)[i - 1] != event_ids(tail)[j - 1]);
                }
            }
        }
    }
}

/// `forward_pass` keeps the order of its batch, so a batch sorted by
/// creation time comes out sorted.
pub proof fn lemma_forward_pass_sorted(
    batch: Seq<InboundEvent>,
    seen: Set<Seq<char>>,
    now: u64,
    gate: bool,
)
    requires
        sorted_by_time(batch),
    ensures
        sorted_by_time(forward_pass(batch, seen, now, gate)),
    decreases batch.len(),
{
    if batch.len() > 0 {
        let e = batch[0];
        let rest = batch.drop_first();
        assert(sorted_by_time(rest)) by {
            assert forall|i: int, j: int| 0 <= i <= j < rest.len() implies rest[i].created_at
                <= rest[j].created_at by {
                assert(rest[i] == batch[i + 1] && rest[j] == batch[j + 1]);
            }
        }
        if (gate && stale(now, e.created_at)) || seen.contains(e.id@) {
            lemma_forward_pass_sorted(rest, seen, now, gate);
        } else {
            let s2 = seen.insert(e.id@);
            lemma_forward_pass_sorted(rest, s2, now, gate);
            lemma_forward_pass_members(rest, s2, now, gate);
            let tail = forward_pass(rest, s2, now, gate);
            let out = forward_pass(batch, seen, now, gate);
            assert(out == seq![e] + tail);
            assert forall|i: int, j: int| 0 <= i <= j < out.len() implies out[i].created_at
                <= out[j].created_at by {
                if i == 0 && j > 0 {
                    let x = tail[j - 1];
                    assert(out[j] == x);
                    assert(rest.contains(x));
                    let k = choose|k: int| 0 <= k < rest.len() && rest[k] == x;
                    assert(batch[k + 1] == x);
                } else if i > 0 {
                    assert(out[i] == tail[i - 1] && out[j] == tail[j - 1]);
                }
            }
        }
    }
}

/// Buffers, time-orders and forwards inbound events, at most once per id.
///
/// The router's downstream history (every event it has handed out for
/// sending) is kept as ghost state, so that its laws can be stated over it.
pub struct EventRouter {
    dedup: DedupEngine,
    batch_size: usize,
    allowed_kinds: Option<Vec<u16>>,
    pending: Vec<InboundEvent>,
    heartbeats: HeartbeatThrottle,
    history: Ghost<Seq<InboundEvent>>,
}

impl EventRouter {
    pub closed spec fn allowed(&self) -> Option<Seq<u16>> {
        match self.allowed_kinds {
            None => None,
            Some(v) => Some(v@),
        }
    }

    pub closed spec fn pending_events(&self) -> Seq<InboundEvent> {
        self.pending@
    }

    pub closed spec fn batch_size_spec(&self) -> nat {
        self.batch_size as nat
    }

    /// The router's deduplication engine.
    pub closed spec fn engine(&self) -> DedupEngine {
        self.dedup
    }

    /// Ids recorded as forwarded by the router's deduplication engine.
    pub closed spec fn forwarded(&self) -> Set<Seq<char>> {
        self.dedup.forwarded()
    }

    /// Every event the router has handed downstream, in order.
    pub closed spec fn downstream(&self) -> Seq<InboundEvent> {
        self.history@
    }

    /// When a heartbeat of `bot` last led to a last-seen update.
    pub closed spec fn last_seen(&self, bot: Seq<char>) -> Option<u64> {
        self.heartbeats.last_seen(bot)
    }

    pub closed spec fn wf(&self) -> bool {
        &&& self.dedup.wf()
        &&& self.heartbeats.wf()
        &&& forall|i: int|
            0 <= i < self.pending@.len() ==> kind_allowed(
                self.allowed(),
                #[trigger] self.pending@[i].kind,
            )
        &&& forall|i: int|
            0 <= i < self.history@.len() ==> kind_allowed(
                self.allowed(),
                #[trigger] self.history@[i].kind,
            )
        &&& forall|i: int|
            0 <= i < self.history@.len() ==> self.dedup.forwarded().contains(
                #[trigger] self.history@[i].id@,
            )
        &&& event_ids(self.history@).no_duplicates()
    }

    /// A router over `dedup`, flushing `batch_size` events at a time; with an
    /// allow-list, events of other kinds are dropped.
    pub fn new(dedup: DedupEngine, batch_size: usize, allowed_kinds: Option<Vec<u16>>) -> (r:
        EventRouter)
        requires
            dedup.wf(),
        ensures
            r.wf(),
            r.forwarded() == dedup.forwarded(),
            r.batch_size_spec() == batch_size,
            r.allowed() == (match allowed_kinds {
                None => None,
                Some(v) => Some(v@),
            }),
            r.pending_events() == Seq::<InboundEvent>::empty(),
            r.downstream() == Seq::<InboundEvent>::empty(),
    {
        let r = EventRouter {
            dedup,
            batch_size,
            allowed_kinds,
            pending: Vec::new(),
            heartbeats: HeartbeatThrottle::new(),
            history: Ghost(Seq::empty()),
        };
        assert(event_ids(r.history@) =~= Seq::<Seq<char>>::empty());
        r
    }

    fn kind_is_allowed(&self, kind: u16) -> (r: bool)
        ensures
            r == kind_allowed(self.allowed(), kind),
    {
        match &self.allowed_kinds {
            None => true,
            Some(ks) => {
                let mut found = false;
                let mut i: usize = 0;
                while i < ks.len()
                    invariant
                        0 <= i <= ks.len(),
                        found == (exists|j: int| 0 <= j < i && ks@[j] == kind),
                    decreases ks.len() - i,
                {
                    if ks[i] == kind {
                        found = true;
                    }
                    i = i + 1;
                }
                found
            },
        }
    }

    /// Takes in one event: drops it if its kind is not allowed or its id was
    /// already forwarded, else buffers it.
    pub fn ingest(&mut self, ev: InboundEvent) -> (r: IngestOutcome)
        requires
            old(self).wf(),
        ensures
            final(self).wf(),
            r == ingest_outcome(
                old(self).allowed(),
                old(self).forwarded(),
                old(self).pending_events().len(),
                old(self).batch_size_spec(),
                ev,
            ),
            final(self).pending_events() == (if r == IngestOutcome::Buffered || r
                == IngestOutcome::FlushDue {
                old(self).pending_events().push(ev)
            } else {
                old(self).pending_events()
            }),
            final(self).forwarded() == old(self).forwarded(),
            final(self).downstream() == old(self).downstream(),
            final(self).allowed() == old(self).allowed(),
            final(self).batch_size_spec() == old(self).batch_size_spec(),
    {
        if !self.kind_is_allowed(ev.kind) {
            return IngestOutcome::KindFiltered;
        }
        if self.dedup.is_duplicate(&ev.id) {
            return IngestOutcome::Duplicate;
        }
        self.pending.push(ev);
        if self.pending.len() >= self.batch_size {
            IngestOutcome::FlushDue
        } else {
            IngestOutcome::Buffered
        }
    }

    /// Whether `ev`, about to be forwarded at `now`, should refresh its
    /// sender's last-seen time: only heartbeats do, at most once per
    /// throttle interval per bot.
    pub fn maybe_update_last_seen(&mut self, ev: &InboundEvent, now: u64) -> (r: bool)
        requires
            old(self).wf(),
        ensures
            final(self).wf(),
            r == (ev.kind == KIND_HEARTBEAT && heartbeat_due(old(self).last_seen(ev.pubkey@), now)),
            final(self).last_seen(ev.pubkey@) == (if r {
                Some(now)
            } else {
                old(self).last_seen(ev.pubkey@)
            }),
            forall|b: Seq<char>| b != ev.pubkey@ ==> final(self).last_seen(b) == old(self).last_seen(b),
            final(self).pending_events() == old(self).pending_events(),
            final(self).forwarded() == old(self).forwarded(),
            final(self).downstream() == old(self).downstream(),
            final(self).allowed() == old(self).allowed(),
            final(self).batch_size_spec() == old(self).batch_size_spec(),
    {
        if ev.kind != KIND_HEARTBEAT {
            return false;
        }
        self.heartbeats.should_update(&ev.pubkey, now)
    }

    /// Sizes of the deduplication tiers.
    pub fn dedup_stats(&self) -> (r: DedupStats)
        requires
            self.wf(),
        ensures
            r.index_count == self.engine().log().len(),
            r.hot_set_size == self.engine().hot_len(),
            r.lru_cache_size == self.engine().lru_len(),
            r.bloom_filter_bits == self.engine().bloom_bits(),
    {
        self.dedup.stats()
    }

    /// Number of buffered events.
    pub fn pending_len(&self) -> (r: usize)
        ensures
            r == self.pending_events().len(),
    {
        self.pending.len()
    }

    /// Sorts the buffer by creation time and removes the oldest `limit` events.
    fn take_oldest(&mut self, limit: usize) -> (batch: Vec<InboundEvent>)
        requires
            old(self).wf(),
        ensures
            final(self).wf(),
            batch@.len() == (if limit < old(self).pending_events().len() {
                limit as nat
            } else {
                old(self).pending_events().len()
            }),
            sorted_by_time(batch@),
            sorted_by_time(final(self).pending_events()),
            batch@.to_multiset().add(final(self).pending_events().to_multiset())
                == old(self).pending_events().to_multiset(),
            forall|i: int, j: int|
                0 <= i < batch@.len() && 0 <= j < final(self).pending_events().len()
                    ==> batch@[i].created_at <= final(self).pending_events()[j].created_at,
            forall|i: int|
                0 <= i < batch@.len() ==> kind_allowed(old(self).allowed(), #[trigger] batch@[i].kind),
            final(self).pending_events().len() == old(self).pending_events().len() - batch@.len(),
            final(self).dedup == old(self).dedup,
            final(self).heartbeats == old(self).heartbeats,
            final(self).history == old(self).history,
            final(self).allowed_kinds == old(self).allowed_kinds,
            final(self).batch_size == old(self).batch_size,
    {
        broadcast use vstd::seq_lib::group_to_multiset_ensures, vstd::multiset::group_multiset_axioms, vstd::multiset::lemma_multiset_empty_len;

        let ghost orig = self.pending@;
        let mut rest = self.pending.split_off(0);
        assert(rest@ == orig);
        let mut sorted: Vec<InboundEvent> = Vec::new();
        proof {
            assert(sorted@.to_multiset().len() == 0);
            assert(sorted@.to_multiset() =~= Multiset::<InboundEvent>::empty());
            assert(sorted@.to_multiset().add(rest@.to_multiset()) =~= orig.to_multiset());
        }
        while rest.len() > 0
            invariant
                sorted_by_time(sorted@),
                sorted@.to_multiset().add(rest@.to_multiset()) == orig.to_multiset(),
                forall|i: int| 0 <= i < sorted@.len() ==> orig.contains(#[trigger] sorted@[i]),
                forall|i: int| 0 <= i < rest@.len() ==> orig.contains(#[trigger] rest@[i]),
            decreases rest@.len(),
        {
            let ghost r0 = rest@;
            let e = rest.remove(0);
            proof {
                to_multiset_remove(r0, 0);
                assert(rest@ == r0.remove(0));
                assert(orig.contains(r0[0]));
            }
            let mut p: usize = sorted.len();
            while p > 0 && sorted[p - 1].created_at > e.created_at
                invariant
                    p <= sorted@.len(),
                    forall|k: int| p <= k < sorted@.len() ==> sorted@[k].created_at > e.created_at,
                decreases p,
            {
                p = p - 1;
            }
            let ghost s0 = sorted@;
            sorted.insert(p, e);
            proof {
                to_multiset_insert(s0, p as int, e);
                assert(sorted@ == s0.insert(p as int, e));
                assert forall|i: int, j: int| 0 <= i <= j < sorted@.len() implies sorted@[i].created_at
                    <= sorted@[j].created_at by {
                    if i < p && j < p {
                        assert(sorted@[i] == s0[i] && sorted@[j] == s0[j]);
                    } else if i < p && j == p {
                        assert(sorted@[i] == s0[i]);
                        assert(s0[i].created_at <= s0[p - 1].created_at);
                    } else if i < p && j > p {
                        assert(sorted@[i] == s0[i] && sorted@[j] == s0[j - 1]);
                    } else if i == p && j > p {
                        assert(sorted@[j] == s0[j - 1]);
                    } else if i > p {
                        assert(sorted@[i] == s0[i - 1] && sorted@[j] == s0[j - 1]);
                    }
                }
                assert forall|i: int| 0 <= i < sorted@.len() implies orig.contains(
                    #[trigger] sorted@[i],
                ) by {
                    if i < p {
                        assert(sorted@[i] == s0[i]);
                    } else if i > p {
                        assert(sorted@[i] == s0[i - 1]);
                    }
                }
                assert forall|i: int| 0 <= i < rest@.len() implies orig.contains(
                    #[trigger] rest@[i],
                ) by {
                    assert(rest@[i] == r0[i + 1]);
                }
                assert(r0.contains(e));
                vstd::seq_lib::to_multiset_contains(r0, e);
                assert(r0.to_multiset().count(e) > 0);
                assert(sorted@.to_multiset() == s0.to_multiset().insert(e));
                assert(rest@.to_multiset() == r0.to_multiset().remove(e));
                assert(sorted@.to_multiset().add(rest@.to_multiset()) =~= s0.to_multiset().add(
                    r0.to_multiset(),
                ));
            }
        }
        proof {
            assert(rest@.to_multiset().len() == 0);
            assert(rest@.to_multiset() =~= Multiset::<InboundEvent>::empty());
            assert(sorted@.to_multiset() =~= orig.to_multiset());
            assert(sorted@.len() == sorted@.to_multiset().len());
            assert(orig.len() == orig.to_multiset().len());
        }
        let k = if limit < sorted.len() {
            limit
        } else {
            sorted.len()
        };
        let ghost all = sorted@;
        let remaining = sorted.split_off(k);
        self.pending = remaining;
        proof {
            assert(all == sorted@ + remaining@);
            vstd::seq_lib::lemma_multiset_commutative(sorted@, remaining@);
            assert forall|i: int| 0 <= i < sorted@.len() implies kind_allowed(
                old(self).allowed(),
                #[trigger] sorted@[i].kind,
            ) by {
                assert(all[i] == sorted@[i]);
                assert(orig.contains(all[i]));
                let j = choose|j: int| 0 <= j < orig.len() && orig[j] == all[i];
                assert(kind_allowed(old(self).allowed(), old(self).pending@[j].kind));
            }
            assert forall|i: int| 0 <= i < remaining@.len() implies kind_allowed(
                self.allowed(),
                #[trigger] remaining@[i].kind,
            ) by {
                assert(all[k + i] == remaining@[i]);
                assert(orig.contains(all[k + i]));
                let j = choose|j: int| 0 <= j < orig.len() && orig[j] == all[k + i];
                assert(kind_allowed(old(self).allowed(), old(self).pending@[j].kind));
            }
            assert forall|i: int, j: int|
                0 <= i < sorted@.len() && 0 <= j < remaining@.len() implies sorted@[i].created_at
                <= remaining@[j].created_at by {
                assert(all[i] == sorted@[i] && all[k + j] == remaining@[j]);
            }
            assert forall|i: int, j: int| 0 <= i <= j < remaining@.len() implies remaining@[i].created_at
                <= remaining@[j].created_at by {
                assert(all[k + i] == remaining@[i] && all[k + j] == remaining@[j]);
            }
            assert forall|i: int, j: int| 0 <= i <= j < sorted@.len() implies sorted@[i].created_at
                <= sorted@[j].created_at by {
                assert(all[i] == sorted@[i] && all[j] == sorted@[j]);
            }
        }
        sorted
    }

    /// Hands out the events of `batch` that pass `forward_pass`, recording each
    /// as forwarded.
    fn forward(&mut self, batch: Vec<InboundEvent>, now: u64, gate: bool) -> (out: Vec<InboundEvent>)
        requires
            old(self).wf(),
            forall|i: int| 0 <= i < batch@.len() ==> kind_allowed(old(self).allowed(), #[trigger] batch@[i].kind),
        ensures
            final(self).wf(),
            out@ == forward_pass(batch@, old(self).forwarded(), now, gate),
            final(self).forwarded() == old(self).forwarded().union(event_ids(out@).to_set()),
            final(self).downstream() == old(self).downstream() + out@,
            final(self).pending == old(self).pending,
            final(self).heartbeats == old(self).heartbeats,
            final(self).allowed_kinds == old(self).allowed_kinds,
            final(self).batch_size == old(self).batch_size,
    {
        let mut rest = batch;
        let mut out: Vec<InboundEvent> = Vec::new();
        let ghost seen0 = self.dedup.forwarded();
        let ghost h0 = self.history@;
        while rest.len() > 0
            invariant
                self.wf(),
                forward_pass(batch@, seen0, now, gate) == out@ + forward_pass(
                    rest@,
                    self.dedup.forwarded(),
                    now,
                    gate,
                ),
                forall|i: int| 0 <= i < rest@.len() ==> kind_allowed(self.allowed(), #[trigger] rest@[i].kind),
                self.dedup.forwarded() == seen0.union(event_ids(out@).to_set()),
                self.history@ == h0 + out@,
                self.pending == old(self).pending,
                self.heartbeats == old(self).heartbeats,
                self.allowed_kinds == old(self).allowed_kinds,
                self.batch_size == old(self).batch_size,
            decreases rest@.len(),
        {
            let ghost r0 = rest@;
            let ghost seen = self.dedup.forwarded();
            let e = rest.remove(0);
            proof {
                assert(rest@ == r0.drop_first());
                assert(kind_allowed(self.allowed(), r0[0].kind));
                assert forall|i: int| 0 <= i < rest@.len() implies kind_allowed(self.allowed(), #[trigger] rest@[i].kind) by {
                    assert(rest@[i] == r0[i + 1]);
                }
            }
            let skip = gate && is_stale(now, e.created_at);
            if !skip {
                let dup = self.dedup.is_duplicate(&e.id);
                if !dup {
                    let ghost out0 = out@;
                    let ghost hist0 = self.history@;
                    self.dedup.record_forwarded(e.id.clone());
                    proof {
                        self.history@ = self.history@.push(e);
                    }
                    out.push(e);
                    proof {
                        assert(event_ids(out@) == event_ids(out0).push(e.id@));
                        event_ids(out0).lemma_push_to_set_commute(e.id@);
                        assert(self.dedup.forwarded() =~= seen0.union(event_ids(out@).to_set()));
                        assert((out0 + seq![e]) + forward_pass(rest@, seen.insert(e.id@), now, gate)
                            =~= out0 + (seq![e] + forward_pass(rest@, seen.insert(e.id@), now, gate)));
                        assert(self.history@ =~= h0 + out@);
                        assert forall|i: int| 0 <= i < self.history@.len() implies self.dedup.forwarded().contains(
                            #[trigger] self.history@[i].id@,
                        ) by {
                            if i < hist0.len() {
                                assert(self.history@[i] == hist0[i]);
                            }
                        }
                        assert(event_ids(self.history@) == event_ids(hist0).push(e.id@));
                        assert forall|i: int, j: int|
                            0 <= i < event_ids(self.history@).len() && 0 <= j < event_ids(self.history@).len() && i != j
                            implies event_ids(self.history@)[i] != event_ids(self.history@)[j] by {
                            if i < hist0.len() && j < hist0.len() {
                                assert(event_ids(hist0)[i] != event_ids(hist0)[j]);
                            } else if i < hist0.len() {
                                assert(seen.contains(hist0[i].id@));
                            } else if j < hist0.len() {
                                assert(seen.contains(hist0[j].id@));
                            }
                        }
                        assert forall|i: int| 0 <= i < self.history@.len() implies kind_allowed(
                            self.allowed(),
                            #[trigger] self.history@[i].kind,
                        ) by {
                            if i < hist0.len() {
                                assert(self.history@[i] == hist0[i]);
                            }
                        }
                    }
                }
            }
        }
        proof {
            assert(forward_pass(rest@, self.dedup.forwarded(), now, gate) =~= Seq::<InboundEvent>::empty());
            assert(out@ + Seq::<InboundEvent>::empty() =~= out@);
        }
        out
    }

    /// Flushes one batch: the oldest `batch_size` buffered events, in
    /// ascending creation time. Stale events and ids already forwarded are
    /// skipped; every event handed out is recorded as forwarded.
    pub fn flush_batch(&mut self, now: u64) -> (out: Vec<InboundEvent>)
        requires
            old(self).wf(),
        ensures
            final(self).wf(),
            exists|batch: Seq<InboundEvent>|
                {
                    &&& batch.len() == (if old(self).batch_size_spec() < old(self).pending_events().len() {
                        old(self).batch_size_spec()
                    } else {
                        old(self).pending_events().len()
                    })
                    &&& sorted_by_time(batch)
                    &&& batch.to_multiset().add(final(self).pending_events().to_multiset())
                        == old(self).pending_events().to_multiset()
                    &&& forall|i: int, j: int|
                        0 <= i < batch.len() && 0 <= j < final(self).pending_events().len()
                            ==> batch[i].created_at <= final(self).pending_events()[j].created_at
                    &&& out@ == forward_pass(batch, old(self).forwarded(), now, true)
                },
            sorted_by_time(out@),
            forall|i: int| 0 <= i < out@.len() ==> !stale(now, #[trigger] out@[i].created_at),
            final(self).forwarded() == old(self).forwarded().union(event_ids(out@).to_set()),
            final(self).downstream() == old(self).downstream() + out@,
            final(self).allowed() == old(self).allowed(),
            final(self).batch_size_spec() == old(self).batch_size_spec(),
            old(self).batch_size_spec() == 0 ==> out@.len() == 0 && final(self).pending_events()
                == old(self).pending_events(),
    {
        let limit = self.batch_size;
        if limit == 0 {
            let out: Vec<InboundEvent> = Vec::new();
            proof {
                broadcast use vstd::seq_lib::group_to_multiset_ensures, vstd::multiset::lemma_multiset_empty_len;

                let b = Seq::<InboundEvent>::empty();
                assert(b.to_multiset().len() == 0);
                assert(b.to_multiset() =~= Multiset::<InboundEvent>::empty());
                assert(b.to_multiset().add(self.pending@.to_multiset()) =~= self.pending@.to_multiset());
                assert(forward_pass(b, old(self).forwarded(), now, true) =~= out@);
                assert(event_ids(out@).to_set() =~= Set::<Seq<char>>::empty());
                assert(self.dedup.forwarded().union(event_ids(out@).to_set()) =~= self.dedup.forwarded());
                assert(self.history@ + out@ =~= self.history@);
                assert({
                    &&& b.len() == (if old(self).batch_size_spec() < old(self).pending_events().len() {
                        old(self).batch_size_spec()
                    } else {
                        old(self).pending_events().len()
                    })
                    &&& sorted_by_time(b)
                    &&& b.to_multiset().add(self.pending_events().to_multiset())
                        == old(self).pending_events().to_multiset()
                    &&& forall|i: int, j: int|
                        0 <= i < b.len() && 0 <= j < self.pending_events().len()
                            ==> b[i].created_at <= self.pending_events()[j].created_at
                    &&& out@ == forward_pass(b, old(self).forwarded(), now, true)
                });
            }
            return out;
        }
        let batch = self.take_oldest(limit);
        let ghost b = batch@;
        let out = self.forward(batch, now, true);
        proof {
            lemma_forward_pass_sorted(b, old(self).forwarded(), now, true);
            lemma_forward_pass_members(b, old(self).forwarded(), now, true);
        }
        out
    }

    /// Drains the whole buffer in ascending creation time, for shutdown. As in
    /// a batch flush, stale events and ids already forwarded are skipped, and
    /// every event handed out is recorded as forwarded.
    pub fn flush_all(&mut self, now: u64) -> (out: Vec<InboundEvent>)
        requires
            old(self).wf(),
        ensures
            final(self).wf(),
            final(self).pending_events() == Seq::<InboundEvent>::empty(),
            exists|batch: Seq<InboundEvent>|
                {
                    &&& sorted_by_time(batch)
                    &&& batch.to_multiset() == old(self).pending_events().to_multiset()
                    &&& out@ == forward_pass(batch, old(self).forwarded(), now, true)
                },
            sorted_by_time(out@),
            forall|i: int| 0 <= i < out@.len() ==> !stale(now, #[trigger] out@[i].created_at),
            final(self).forwarded() == old(self).forwarded().union(event_ids(out@).to_set()),
            final(self).downstream() == old(self).downstream() + out@,
            final(self).allowed() == old(self).allowed(),
    {
        let limit = self.pending.len();
        let batch = self.take_oldest(limit);
        let ghost b = batch@;
        let out = self.forward(batch, now, true);
        proof {
            broadcast use vstd::seq_lib::group_to_multiset_ensures, vstd::multiset::lemma_multiset_empty_len;

            assert(self.pending@.len() == 0);
            assert(self.pending@ =~= Seq::<InboundEvent>::empty());
            assert(self.pending@.to_multiset().len() == 0);
            assert(self.pending@.to_multiset() =~= Multiset::<InboundEvent>::empty());
            assert(b.to_multiset().add(Multiset::<InboundEvent>::empty()) =~= b.to_multiset());
            lemma_forward_pass_sorted(b, old(self).forwarded(), now, true);
            lemma_forward_pass_members(b, old(self).forwarded(), now, true);
        }
        out
    }
}

/// At most once per id: over its whole life, the events a router hands
/// downstream never repeat an id.
pub proof fn lemma_forwarded_at_most_once(r: &EventRouter)
    requires
        r.wf(),
    ensures
        event_ids(r.downstream()).no_duplicates(),
{
}

/// With an allow-list, no event of another kind is ever handed downstream.
pub proof fn lemma_allow_list_respected(r: &EventRouter)
    requires
        r.wf(),
    ensures
        forall|i: int|
            0 <= i < r.downstream().len() ==> kind_allowed(r.allowed(), #[trigger] r.downstream()[i].kind),
{
}

/// After a restart over a forward index `log`, an event whose id the index
/// holds is refused at ingest, so it is never buffered nor sent again.
pub proof fn lemma_restart_refuses_recorded(
    log: Seq<Seq<char>>,
    allowed: Option<Seq<u16>>,
    pending_len: nat,
    batch_size: nat,
    ev: InboundEvent,
)
    requires
        log.contains(ev.id@),
    ensures
        ({
            let o = ingest_outcome(allowed, log.to_set(), pending_len, batch_size, ev);
            o == IngestOutcome::Duplicate || o == IngestOutcome::KindFiltered
        }),
{
}

} // verus!
