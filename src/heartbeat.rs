use vstd::prelude::*;

verus! {

/// Minimum spacing, in seconds, between two last-seen updates of one bot.
pub const HEARTBEAT_MIN_INTERVAL_SECS: u64 = 900;

/// Whether a heartbeat at `now` warrants a last-seen update, given the time
/// of the previous update, if any. A clock that went backwards counts as no
/// time elapsed.
pub open spec fn heartbeat_due(last: Option<u64>, now: u64) -> bool {
    match last {
        None => true,
        Some(t) => now > t && now - t >= HEARTBEAT_MIN_INTERVAL_SECS,
    }
}

struct SeenEntry {
    bot: String,
    at: u64,
}

/// Per-bot record of the last time a heartbeat led to an update.
pub struct HeartbeatThrottle {
    entries: Vec<SeenEntry>,
    seen: Ghost<Map<Seq<char>, u64>>,
}

impl HeartbeatThrottle {
    /// When the last update for `bot` was let through, if ever.
    pub closed spec fn last_seen(&self, bot: Seq<char>) -> Option<u64> {
        if self.seen@.contains_key(bot) {
            Some(self.seen@[bot])
        } else {
            None
        }
    }

    pub closed spec fn wf(&self) -> bool {
        &&& forall|i: int|
            0 <= i < self.entries@.len() ==> {
                &&& self.seen@.contains_key(#[trigger] self.entries@[i].bot@)
                &&& self.seen@[self.entries@[i].bot@] == self.entries@[i].at
            }
        &&& forall|b: Seq<char>|
            #[trigger] self.seen@.contains_key(b) ==> exists|i: int|
                0 <= i < self.entries@.len() && self.entries@[i].bot@ == b
        &&& forall|i: int, j: int|
            0 <= i < self.entries@.len() && 0 <= j < self.entries@.len() && i != j
                ==> self.entries@[i].bot@ != self.entries@[j].bot@
    }

    pub fn new() -> (r: HeartbeatThrottle)
        ensures
            r.wf(),
            forall|b: Seq<char>| r.last_seen(b) is None,
    {
        HeartbeatThrottle { entries: Vec::new(), seen: Ghost(Map::empty()) }
    }

    /// Decides whether a heartbeat of `bot` at `now` leads to a last-seen
    /// update, and if so records `now` for it.
    pub fn should_update(&mut self, bot: &String, now: u64) -> (r: bool)
        requires
            old(self).wf(),
        ensures
            final(self).wf(),
            r == heartbeat_due(old(self).last_seen(bot@), now),
            final(self).last_seen(bot@) == (if r {
                Some(now)
            } else {
                old(self).last_seen(bot@)
            }),
            forall|b: Seq<char>| b != bot@ ==> final(self).last_seen(b) == old(self).last_seen(b),
    {
        let mut pos: Option<usize> = None;
        let mut j: usize = 0;
        while j < self.entries.len()
            invariant
                0 <= j <= self.entries.len(),
                pos matches Some(k) ==> k < self.entries.len() && self.entries@[k as int].bot@ == bot@,
                pos is None ==> forall|m: int| 0 <= m < j ==> self.entries@[m].bot@ != bot@,
            decreases self.entries.len() - j,
        {
            if pos.is_none() && self.entries[j].bot == *bot {
                pos = Some(j);
            }
            j = j + 1;
        }
        let found = pos.is_some();
        let i: usize = match pos {
            Some(k) => k,
            None => 0,
        };
        proof {
            if !found && self.seen@.contains_key(bot@) {
                let k = choose|k: int| 0 <= k < self.entries@.len() && self.entries@[k].bot@ == bot@;
            }
        }
        if found {
            let last = self.entries[i].at;
            assert(self.seen@[bot@] == last);
            if now > last && now - last >= HEARTBEAT_MIN_INTERVAL_SECS {
                let ghost e0 = self.entries@;
                self.entries.remove(i);
                self.entries.push(SeenEntry { bot: bot.clone(), at: now });
                proof {
                    self.seen@ = self.seen@.insert(bot@, now);
                    let n = self.entries@.len();
                    assert forall|k: int| 0 <= k < n - 1 implies #[trigger] self.entries@[k].bot@ != bot@ by {
                        if k < i {
                            assert(self.entries@[k] == e0[k]);
                        } else {
                            assert(self.entries@[k] == e0[k + 1]);
                            assert(e0[k + 1].bot@ != e0[i as int].bot@);
                        }
                    }
                    assert forall|k: int| 0 <= k < n implies {
                        &&& self.seen@.contains_key(#[trigger] self.entries@[k].bot@)
                        &&& self.seen@[self.entries@[k].bot@] == self.entries@[k].at
                    } by {
                        if k < i {
                            assert(self.entries@[k] == e0[k]);
                        } else if k < n - 1 {
                            assert(self.entries@[k] == e0[k + 1]);
                        }
                    }
                    assert forall|b: Seq<char>| #[trigger] self.seen@.contains_key(b) implies exists|k: int|
                        0 <= k < self.entries@.len() && self.entries@[k].bot@ == b by {
                        if b == bot@ {
                            assert(self.entries@[n - 1].bot@ == b);
                        } else {
                            let k = choose|k: int| 0 <= k < e0.len() && e0[k].bot@ == b;
                            if k < i {
                                assert(self.entries@[k] == e0[k]);
                            } else {
                                assert(k != i);
                                assert(self.entries@[k - 1] == e0[k]);
                            }
                        }
                    }
                    assert forall|a: int, c: int|
                        0 <= a < n && 0 <= c < n && a != c implies self.entries@[a].bot@ != self.entries@[c].bot@ by {
                        if a < n - 1 && c < n - 1 {
                            let a0 = if a < i { a } else { a + 1 };
                            let c0 = if c < i { c } else { c + 1 };
                            assert(self.entries@[a] == e0[a0]);
                            assert(self.entries@[c] == e0[c0]);
                        }
                    }
                }
                true
            } else {
                false
            }
        } else {
            let ghost e0 = self.entries@;
            self.entries.push(SeenEntry { bot: bot.clone(), at: now });
            proof {
                self.seen@ = self.seen@.insert(bot@, now);
                let n = self.entries@.len();
                assert forall|k: int| 0 <= k < n implies {
                    &&& self.seen@.contains_key(#[trigger] self.entries@[k].bot@)
                    &&& self.seen@[self.entries@[k].bot@] == self.entries@[k].at
                } by {
                    if k < n - 1 {
                        assert(self.entries@[k] == e0[k]);
                    }
                }
                assert forall|b: Seq<char>| #[trigger] self.seen@.contains_key(b) implies exists|k: int|
                    0 <= k < self.entries@.len() && self.entries@[k].bot@ == b by {
                    if b == bot@ {
                        assert(self.entries@[n - 1].bot@ == b);
                    } else {
                        let k = choose|k: int| 0 <= k < e0.len() && e0[k].bot@ == b;
                        assert(self.entries@[k] == e0[k]);
                    }
                }
                assert forall|a: int, c: int|
                    0 <= a < n && 0 <= c < n && a != c implies self.entries@[a].bot@ != self.entries@[c].bot@ by {
                    if a < n - 1 && c < n - 1 {
                        assert(self.entries@[a] == e0[a] && self.entries@[c] == e0[c]);
                    } else if a < n - 1 {
                        assert(self.entries@[a] == e0[a]);
                    } else if c < n - 1 {
                        assert(self.entries@[c] == e0[c]);
                    }
                }
            }
            true
        }
    }
}

/// Of two heartbeats of one bot less than the minimum interval apart, at
/// most one leads to a last-seen update; for a bot not seen before, exactly
/// one does (the first).
pub proof fn lemma_heartbeat_throttle(last: Option<u64>, t1: u64, t2: u64)
    requires
        t1 <= t2 < t1 + HEARTBEAT_MIN_INTERVAL_SECS,
    ensures
        ({
            let first = heartbeat_due(last, t1);
            let after = if first { Some(t1) } else { last };
            let second = heartbeat_due(after, t2);
            &&& !(first && second)
            &&& last is None ==> first && !second
        }),
{
}

} // verus!
