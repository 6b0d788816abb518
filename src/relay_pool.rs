use vstd::prelude::*;

verus! {

/// Longest wait, in seconds, before redialling a relay that dropped.
pub const MAX_RETRY_DELAY_SECS: u64 = 300;

/// State of one upstream connection.
#[derive(Clone, Copy, Debug, PartialEq, Eq, Structural)]
pub enum ConnectionStatus {
    Disconnected,
    Connecting,
    Connected,
    Subscribed,
    Failed,
}

pub open spec fn is_live(s: ConnectionStatus) -> bool {
    s == ConnectionStatus::Connected || s == ConnectionStatus::Subscribed
}

pub open spec fn is_busy(s: ConnectionStatus) -> bool {
    is_live(s) || s == ConnectionStatus::Connecting
}

/// One relay endpoint and what is known of its connection.
pub struct RelayConnection {
    pub url: String,
    pub status: ConnectionStatus,
    /// Removed by request: never redialled until added again.
    pub retired: bool,
    /// I/O failures since the last successful handshake.
    pub failures: u32,
    /// When the last inbound frame (or the handshake) was seen, in seconds.
    pub last_frame: u64,
}

pub open spec fn count_status(s: Seq<RelayConnection>, st: ConnectionStatus) -> nat
    decreases s.len(),
{
    if s.len() == 0 {
        0
    } else {
        count_status(s.drop_last(), st) + if s.last().status == st {
            1nat
        } else {
            0nat
        }
    }
}

pub open spec fn count_live(s: Seq<RelayConnection>) -> nat
    decreases s.len(),
{
    if s.len() == 0 {
        0
    } else {
        count_live(s.drop_last()) + if is_live(s.last().status) {
            1nat
        } else {
            0nat
        }
    }
}

/// Replacing one connection changes the count of a status by what it
/// removes and what it adds.
pub proof fn lemma_count_status_update(s: Seq<RelayConnection>, i: int, x: RelayConnection, st: ConnectionStatus)
    requires
        0 <= i < s.len(),
    ensures
        count_status(s.update(i, x), st) + (if s[i].status == st { 1int } else { 0int }) == count_status(s, st)
            + (if x.status == st { 1int } else { 0int }),
    decreases s.len(),
{
    if i < s.len() - 1 {
        lemma_count_status_update(s.drop_last(), i, x, st);
        assert(s.update(i, x).drop_last() =~= s.drop_last().update(i, x));
    } else {
        assert(s.update(i, x).drop_last() =~= s.drop_last());
    }
}

/// A connection the health check redials: not retired, and either dropped,
/// failed, or live with no frame for more than twice the interval.
pub open spec fn redial_candidate(c: RelayConnection, now: u64, interval: u64) -> bool {
    !c.retired && ((is_live(c.status) && now > c.last_frame && now - c.last_frame > 2 * (interval as int))
        || c.status == ConnectionStatus::Disconnected || c.status == ConnectionStatus::Failed)
}

pub open spec fn url_views(v: Seq<String>) -> Seq<Seq<char>> {
    v.map_values(|u: String| u@)
}

/// Some connection to `url` is connecting or connected.
pub open spec fn busy_url(s: Seq<RelayConnection>, url: Seq<char>) -> bool {
    exists|k: int| 0 <= k < s.len() && s[k].url@ == url && is_busy(s[k].status)
}

/// Some connection to `url` is being dialled.
pub open spec fn dialling(s: Seq<RelayConnection>, url: Seq<char>) -> bool {
    exists|k: int| 0 <= k < s.len() && s[k].url@ == url && s[k].status == ConnectionStatus::Connecting
}

pub open spec fn has_url(s: Seq<RelayConnection>, url: Seq<char>) -> bool {
    exists|i: int| 0 <= i < s.len() && s[i].url@ == url
}

/// The failure count after one more failure (saturating).
pub open spec fn next_failures(f: u32) -> u32 {
    if f < u32::MAX {
        (f + 1) as u32
    } else {
        f
    }
}

/// Redial delay after `failures` consecutive failures: one second, doubling,
/// at most `MAX_RETRY_DELAY_SECS`.
pub open spec fn retry_delay_spec(failures: nat) -> nat
    decreases failures,
{
    if failures == 0 {
        1
    } else {
        let d = 2 * retry_delay_spec((failures - 1) as nat);
        if d > MAX_RETRY_DELAY_SECS {
            MAX_RETRY_DELAY_SECS as nat
        } else {
            d
        }
    }
}

/// Once the delay reaches its cap it stays there.
proof fn lemma_retry_delay_capped(i: nat, n: nat)
    requires
        i <= n,
        retry_delay_spec(i) == MAX_RETRY_DELAY_SECS,
    ensures
        retry_delay_spec(n) == MAX_RETRY_DELAY_SECS,
    decreases n - i,
{
    if i < n {
        lemma_retry_delay_capped(i, (n - 1) as nat);
    }
}

pub fn retry_delay(failures: u32) -> (r: u64)
    ensures
        r == retry_delay_spec(failures as nat),
        1 <= r <= MAX_RETRY_DELAY_SECS,
{
    let mut d: u64 = 1;
    let mut i: u32 = 0;
    while i < failures && d < MAX_RETRY_DELAY_SECS
        invariant
            i <= failures,
            d == retry_delay_spec(i as nat),
            1 <= d <= MAX_RETRY_DELAY_SECS,
        decreases failures - i,
    {
        d = if 2 * d > MAX_RETRY_DELAY_SECS {
            MAX_RETRY_DELAY_SECS
        } else {
            2 * d
        };
        i = i + 1;
    }
    proof {
        if i < failures {
            lemma_retry_delay_capped(i as nat, failures as nat);
        }
    }
    d
}

/// The upstream connections, one per relay URL, with the decisions of their
/// state machine: when to dial, when a connection counts as stale, when to
/// retry. The transport itself (sockets, handshakes, frames) reports into it.
pub struct RelayPool {
    conns: Vec<RelayConnection>,
    health_check_interval: u64,
    max_connections: usize,
    allowed_kinds: Option<Vec<u16>>,
}

impl RelayPool {
    pub closed spec fn connections(&self) -> Seq<RelayConnection> {
        self.conns@
    }

    pub closed spec fn max_connections_spec(&self) -> nat {
        self.max_connections as nat
    }

    pub closed spec fn interval_spec(&self) -> u64 {
        self.health_check_interval
    }

    /// URLs are unique.
    pub closed spec fn wf(&self) -> bool {
        forall|i: int, j: int|
            0 <= i < self.conns@.len() && 0 <= j < self.conns@.len() && i != j
                ==> self.conns@[i].url@ != self.conns@[j].url@
    }

    pub fn new(health_check_interval: u64, max_connections: usize, allowed_kinds: Option<Vec<u16>>) -> (r: RelayPool)
        ensures
            r.wf(),
            r.connections().len() == 0,
            r.max_connections_spec() == max_connections,
            r.interval_spec() == health_check_interval,
            r.allowed_spec() == (match allowed_kinds {
                Some(v) => Some(v@),
                None => None,
            }),
    {
        RelayPool { conns: Vec::new(), health_check_interval, max_connections, allowed_kinds }
    }

    /// The configured kind allow-list.
    pub closed spec fn allowed_spec(&self) -> Option<Seq<u16>> {
        match self.allowed_kinds {
            Some(v) => Some(v@),
            None => None,
        }
    }

    /// The kinds to ask relays for when subscribing; `None` asks for all.
    pub fn subscription_kinds(&self) -> (r: Option<Vec<u16>>)
        ensures
            match r {
                Some(v) => self.allowed_spec() == Some(v@),
                None => self.allowed_spec() is None,
            },
    {
        match &self.allowed_kinds {
            Some(v) => Some(v.clone()),
            None => None,
        }
    }

    fn position(&self, url: &String) -> (r: Option<usize>)
        requires
            self.wf(),
        ensures
            r matches Some(k) ==> k < self.conns@.len() && self.conns@[k as int].url@ == url@,
            r is None ==> !has_url(self.conns@, url@),
    {
        let mut i: usize = 0;
        while i < self.conns.len()
            invariant
                0 <= i <= self.conns@.len(),
                forall|j: int| 0 <= j < i ==> self.conns@[j].url@ != url@,
            decreases self.conns@.len() - i,
        {
            if self.conns[i].url == *url {
                return Some(i);
            }
            i = i + 1;
        }
        None
    }

    fn count_connecting(&self) -> (r: usize)
        ensures
            r == count_status(self.conns@, ConnectionStatus::Connecting),
    {
        let mut n: usize = 0;
        let mut i: usize = 0;
        while i < self.conns.len()
            invariant
                0 <= i <= self.conns@.len(),
                n == count_status(self.conns@.subrange(0, i as int), ConnectionStatus::Connecting),
                n <= i,
            decreases self.conns@.len() - i,
        {
            assert(self.conns@.subrange(0, i + 1).drop_last() =~= self.conns@.subrange(0, i as int));
            if self.conns[i].status == ConnectionStatus::Connecting {
                n = n + 1;
            }
            i = i + 1;
        }
        assert(self.conns@.subrange(0, i as int) =~= self.conns@);
        n
    }

    /// Number of connections that completed their handshake.
    pub fn active_connections(&self) -> (r: usize)
        ensures
            r == count_live(self.connections()),
    {
        let mut n: usize = 0;
        let mut i: usize = 0;
        while i < self.conns.len()
            invariant
                0 <= i <= self.conns@.len(),
                n == count_live(self.conns@.subrange(0, i as int)),
                n <= i,
            decreases self.conns@.len() - i,
        {
            assert(self.conns@.subrange(0, i + 1).drop_last() =~= self.conns@.subrange(0, i as int));
            let s = self.conns[i].status;
            if s == ConnectionStatus::Connected || s == ConnectionStatus::Subscribed {
                n = n + 1;
            }
            i = i + 1;
        }
        assert(self.conns@.subrange(0, i as int) =~= self.conns@);
        n
    }

    /// Asks to dial `url`, adding it if new. Refused (`false`, nothing
    /// changes) when that relay is already connecting or connected, or when
    /// `max_connections` dials are already under way; otherwise it is marked
    /// connecting, no longer retired, and the caller dials it.
    pub fn connect_and_subscribe(&mut self, url: String) -> (r: bool)
        requires
            old(self).wf(),
        ensures
            final(self).wf(),
            r == (!(exists|i: int|
                0 <= i < old(self).connections().len() && old(self).connections()[i].url@ == url@
                    && is_busy(old(self).connections()[i].status)) && count_status(
                old(self).connections(),
                ConnectionStatus::Connecting,
            ) < old(self).max_connections_spec()),
            !r ==> final(self).connections() == old(self).connections(),
            r ==> has_url(final(self).connections(), url@),
            r ==> forall|i: int|
                0 <= i < final(self).connections().len() && final(self).connections()[i].url@ == url@
                    ==> final(self).connections()[i].status == ConnectionStatus::Connecting
                    && !final(self).connections()[i].retired,
            forall|i: int|
                0 <= i < old(self).connections().len() && old(self).connections()[i].url@ != url@
                    ==> final(self).connections()[i] == old(self).connections()[i],
            final(self).connections().len() >= old(self).connections().len(),
            forall|i: int|
                old(self).connections().len() <= i < final(self).connections().len()
                    ==> final(self).connections()[i].url@ == url@,
            count_status(final(self).connections(), ConnectionStatus::Connecting) >= count_status(
                old(self).connections(),
                ConnectionStatus::Connecting,
            ),
            final(self).max_connections_spec() == old(self).max_connections_spec(),
            final(self).interval_spec() == old(self).interval_spec(),
    {
        let connecting = self.count_connecting();
        match self.position(&url) {
            Some(k) => {
                let s = self.conns[k].status;
                if s == ConnectionStatus::Connecting || s == ConnectionStatus::Connected || s
                    == ConnectionStatus::Subscribed {
                    return false;
                }
                proof {
                    assert forall|i: int|
                        0 <= i < self.conns@.len() && self.conns@[i].url@ == url@ implies !is_busy(
                        self.conns@[i].status,
                    ) by {
                        if i != k {
                        }
                    }
                }
                if connecting >= self.max_connections {
                    return false;
                }
                let failures = self.conns[k].failures;
                let last_frame = self.conns[k].last_frame;
                let ghost c0 = self.conns@;
                self.conns.set(
                    k,
                    RelayConnection {
                        url,
                        status: ConnectionStatus::Connecting,
                        retired: false,
                        failures,
                        last_frame,
                    },
                );
                proof {
                    lemma_count_status_update(c0, k as int, self.conns@[k as int], ConnectionStatus::Connecting);
                    assert(self.conns@ == c0.update(k as int, self.conns@[k as int]));
                    assert(self.conns@[k as int].url@ == c0[k as int].url@);
                    assert forall|i: int|
                        0 <= i < self.conns@.len() && self.conns@[i].url@ == c0[k as int].url@ implies i
                        == k by {
                        if i != k {
                            assert(self.conns@[i] == c0[i]);
                        }
                    }
                }
                true
            },
            None => {
                if connecting >= self.max_connections {
                    return false;
                }
                let ghost c0 = self.conns@;
                self.conns.push(
                    RelayConnection {
                        url,
                        status: ConnectionStatus::Connecting,
                        retired: false,
                        failures: 0,
                        last_frame: 0,
                    },
                );
                proof {
                    let n = self.conns@.len() - 1;
                    assert(self.conns@.drop_last() =~= c0);
                    assert(self.conns@[n].url@ == url@);
                    assert forall|i: int| 0 <= i < n implies self.conns@[i] == c0[i] by {}
                    assert forall|i: int|
                        0 <= i < self.conns@.len() && self.conns@[i].url@ == url@ implies i == n by {
                        if i < n {
                            assert(self.conns@[i] == c0[i]);
                        }
                    }
                }
                true
            },
        }
    }

    /// Asks to dial each of `urls` in turn; returns those the caller should
    /// dial, each now marked connecting. A url not returned was refused: its
    /// relay is already connecting or connected, or `max_connections` dials
    /// are under way.
    pub fn subscribe_all(&mut self, urls: Vec<String>) -> (r: Vec<String>)
        requires
            old(self).wf(),
        ensures
            final(self).wf(),
            forall|j: int| 0 <= j < r@.len() ==> url_views(urls@).contains((#[trigger] r@[j])@),
            forall|j: int|
                0 <= j < r@.len() ==> has_url(final(self).connections(), (#[trigger] r@[j])@),
            forall|j: int, i: int|
                0 <= j < r@.len() && 0 <= i < final(self).connections().len()
                    && #[trigger] final(self).connections()[i].url@ == #[trigger] r@[j]@
                    ==> final(self).connections()[i].status == ConnectionStatus::Connecting,
            forall|k: int|
                0 <= k < urls@.len() ==> url_views(r@).contains((#[trigger] urls@[k])@) || busy_url(
                    final(self).connections(),
                    urls@[k]@,
                ) || count_status(final(self).connections(), ConnectionStatus::Connecting)
                    >= final(self).max_connections_spec(),
            final(self).max_connections_spec() == old(self).max_connections_spec(),
    {
        let mut out: Vec<String> = Vec::new();
        let mut i: usize = 0;
        while i < urls.len()
            invariant
                self.wf(),
                0 <= i <= urls@.len(),
                self.max_connections == old(self).max_connections,
                forall|j: int| 0 <= j < out@.len() ==> url_views(urls@.subrange(0, i as int)).contains((#[trigger] out@[j])@),
                forall|j: int| 0 <= j < out@.len() ==> has_url(self.conns@, (#[trigger] out@[j])@),
                forall|j: int, k: int|
                    0 <= j < out@.len() && 0 <= k < self.conns@.len() && #[trigger] self.conns@[k].url@
                        == #[trigger] out@[j]@ ==> self.conns@[k].status == ConnectionStatus::Connecting,
                forall|k: int|
                    0 <= k < i ==> url_views(out@).contains((#[trigger] urls@[k])@) || busy_url(self.conns@, urls@[k]@)
                        || count_status(self.conns@, ConnectionStatus::Connecting) >= self.max_connections,
            decreases urls@.len() - i,
        {
            let u = urls[i].clone();
            let ghost before = self.conns@;
            let ghost out0 = out@;
            let dialed = self.connect_and_subscribe(u);
            proof {
                assert forall|j: int| 0 <= j < out0.len() && out0[j]@ != urls@[i as int]@ implies has_url(
                    self.conns@,
                    out0[j]@,
                ) by {
                    let k = choose|k: int| 0 <= k < before.len() && before[k].url@ == out0[j]@;
                    assert(self.conns@[k] == before[k]);
                }
                assert forall|j: int, k: int|
                    0 <= j < out0.len() && 0 <= k < self.conns@.len() && self.conns@[k].url@ == out0[j]@
                        && out0[j]@ != urls@[i as int]@ implies self.conns@[k].status
                    == ConnectionStatus::Connecting by {
                    if k < before.len() {
                        assert(self.conns@[k] == before[k]);
                    }
                }
                if !dialed {
                    assert(self.conns@ == before);
                }
                assert forall|k: int| 0 <= k < i && busy_url(before, urls@[k]@) implies busy_url(self.conns@, urls@[k]@) by {
                    let m = choose|m: int| 0 <= m < before.len() && before[m].url@ == urls@[k]@ && is_busy(before[m].status);
                    if urls@[k]@ != urls@[i as int]@ {
                        assert(self.conns@[m] == before[m]);
                    } else if dialed {
                        assert(self.conns@[m].url@ == urls@[k]@);
                    } else {
                        assert(self.conns@[m] == before[m]);
                    }
                }
            }
            if dialed {
                out.push(urls[i].clone());
                proof {
                    assert forall|j: int| 0 <= j < out0.len() implies out0[j]@ != urls@[i as int]@ by {
                        let k = choose|k: int| 0 <= k < before.len() && before[k].url@ == out0[j]@;
                        assert(before[k].status == ConnectionStatus::Connecting);
                    }
                    assert forall|j: int| 0 <= j < out@.len() implies has_url(self.conns@, (#[trigger] out@[j])@) by {
                        if j < out0.len() {
                            assert(out@[j] == out0[j]);
                        }
                    }
                }
            }
            proof {
                assert(url_views(out@) == (if dialed { url_views(out0).push(urls@[i as int]@) } else { url_views(out0) }));
                assert forall|j: int| 0 <= j < out@.len() implies url_views(urls@.subrange(0, i + 1)).contains((#[trigger] out@[j])@) by {
                    if j < out0.len() {
                        assert(out@[j] == out0[j]);
                        let m = choose|m: int| 0 <= m < url_views(urls@.subrange(0, i as int)).len() && url_views(urls@.subrange(0, i as int))[m] == out0[j]@;
                        assert(url_views(urls@.subrange(0, i + 1))[m] == out0[j]@);
                    } else {
                        assert(url_views(urls@.subrange(0, i + 1))[i as int] == out@[j]@);
                    }
                }
                assert forall|k: int| 0 <= k < i + 1 implies url_views(out@).contains((#[trigger] urls@[k])@) || busy_url(self.conns@, urls@[k]@)
                    || count_status(self.conns@, ConnectionStatus::Connecting) >= self.max_connections by {
                    if k < i {
                        if url_views(out0).contains(urls@[k]@) {
                            let m = choose|m: int| 0 <= m < url_views(out0).len() && url_views(out0)[m] == urls@[k]@;
                            assert(url_views(out@)[m] == urls@[k]@);
                        }
                    } else if dialed {
                        assert(url_views(out@)[out@.len() - 1] == urls@[k]@);
                    } else {
                        if !busy_url(before, urls@[k]@) {
                            assert(count_status(before, ConnectionStatus::Connecting) >= self.max_connections);
                        }
                    }
                }
            }
            i = i + 1;
        }
        proof {
            assert(urls@.subrange(0, i as int) =~= urls@);
        }
        out
    }

    /// Applies `f` to the connection of `url`, if known.
    fn update(&mut self, url: &String, status: ConnectionStatus, retired: Option<bool>, failures: Option<u32>, last_frame: Option<u64>) -> (r: bool)
        requires
            old(self).wf(),
        ensures
            final(self).wf(),
            r == has_url(old(self).connections(), url@),
            final(self).connections().len() == old(self).connections().len(),
            forall|i: int|
                0 <= i < old(self).connections().len() ==> {
                    let o = old(self).connections()[i];
                    let n = #[trigger] final(self).connections()[i];
                    if o.url@ == url@ {
                        &&& n.url == o.url
                        &&& n.status == status
                        &&& n.retired == (match retired { Some(b) => b, None => o.retired })
                        &&& n.failures == (match failures { Some(f) => f, None => o.failures })
                        &&& n.last_frame == (match last_frame { Some(t) => t, None => o.last_frame })
                    } else {
                        n == o
                    }
                },
            final(self).max_connections_spec() == old(self).max_connections_spec(),
            final(self).interval_spec() == old(self).interval_spec(),
    {
        match self.position(url) {
            None => {
                proof {
                    assert forall|i: int| 0 <= i < self.conns@.len() implies self.conns@[i].url@ != url@ by {
                        if self.conns@[i].url@ == url@ {
                            assert(has_url(self.conns@, url@));
                        }
                    }
                }
                false
            },
            Some(k) => {
                let old_c = &self.conns[k];
                let c = RelayConnection {
                    url: old_c.url.clone(),
                    status,
                    retired: match retired {
                        Some(b) => b,
                        None => old_c.retired,
                    },
                    failures: match failures {
                        Some(f) => f,
                        None => old_c.failures,
                    },
                    last_frame: match last_frame {
                        Some(t) => t,
                        None => old_c.last_frame,
                    },
                };
                let ghost c0 = self.conns@;
                self.conns.set(k, c);
                proof {
                    assert forall|i: int| 0 <= i < c0.len() && i != k implies c0[i].url@ != url@ by {}
                }
                true
            },
        }
    }

    /// The handshake with `url` succeeded at `now`: the subscription filter is
    /// issued right away, so the connection is subscribed, its failures reset.
    pub fn on_connected(&mut self, url: &String, now: u64) -> (r: bool)
        requires
            old(self).wf(),
        ensures
            final(self).wf(),
            r == has_url(old(self).connections(), url@),
            forall|i: int|
                0 <= i < final(self).connections().len() && final(self).connections()[i].url@ == url@
                    ==> final(self).connections()[i].status == ConnectionStatus::Subscribed
                    && final(self).connections()[i].last_frame == now
                    && final(self).connections()[i].failures == 0,
    {
        self.update(url, ConnectionStatus::Subscribed, None, Some(0), Some(now))
    }

    /// A frame arrived from `url` at `now`.
    pub fn on_frame(&mut self, url: &String, now: u64)
        requires
            old(self).wf(),
        ensures
            final(self).wf(),
            final(self).connections().len() == old(self).connections().len(),
            forall|i: int|
                0 <= i < old(self).connections().len() ==> {
                    let o = old(self).connections()[i];
                    let n = #[trigger] final(self).connections()[i];
                    if o.url@ == url@ {
                        n.url == o.url && n.status == o.status && n.retired == o.retired
                            && n.failures == o.failures && n.last_frame == now
                    } else {
                        n == o
                    }
                },
    {
        match self.position(url) {
            Some(k) => {
                let s = self.conns[k].status;
                self.update(url, s, None, None, Some(now));
            },
            None => {
                proof {
                    assert forall|i: int| 0 <= i < self.conns@.len() implies self.conns@[i].url@ != url@ by {
                        if self.conns@[i].url@ == url@ {
                            assert(has_url(self.conns@, url@));
                        }
                    }
                }
            },
        }
    }

    /// Marks `url` with `status` after a failure, counting it; returns the
    /// redial delay for the new failure count (1 for an unknown relay).
    fn record_failure(&mut self, url: &String, status: ConnectionStatus) -> (r: u64)
        requires
            old(self).wf(),
        ensures
            final(self).wf(),
            final(self).connections().len() == old(self).connections().len(),
            forall|i: int|
                0 <= i < old(self).connections().len() ==> {
                    let o = old(self).connections()[i];
                    let n = #[trigger] final(self).connections()[i];
                    if o.url@ == url@ {
                        &&& n.url == o.url
                        &&& n.status == status
                        &&& n.retired == o.retired
                        &&& n.last_frame == o.last_frame
                        &&& n.failures == next_failures(o.failures)
                        &&& r == retry_delay_spec(n.failures as nat)
                    } else {
                        n == o
                    }
                },
            !has_url(old(self).connections(), url@) ==> r == 1,
            1 <= r <= MAX_RETRY_DELAY_SECS,
            final(self).max_connections_spec() == old(self).max_connections_spec(),
            final(self).interval_spec() == old(self).interval_spec(),
    {
        match self.position(url) {
            Some(k) => {
                let f = self.conns[k].failures;
                let f2 = if f < u32::MAX {
                    f + 1
                } else {
                    f
                };
                let ghost c0 = self.conns@;
                self.update(url, status, None, Some(f2), None);
                proof {
                    assert forall|i: int| 0 <= i < c0.len() && c0[i].url@ == url@ implies i == k by {
                        if i != k {
                            assert(c0[i].url@ != c0[k as int].url@);
                        }
                    }
                }
                retry_delay(f2)
            },
            None => {
                self.update(url, status, None, None, None);
                1
            },
        }
    }

    /// An I/O error on `url`: the connection drops to disconnected and one
    /// more failure is counted (saturating); returns the redial delay for
    /// that count.
    pub fn on_io_error(&mut self, url: &String) -> (r: u64)
        requires
            old(self).wf(),
        ensures
            final(self).wf(),
            final(self).connections().len() == old(self).connections().len(),
            forall|i: int|
                0 <= i < old(self).connections().len() ==> {
                    let o = old(self).connections()[i];
                    let n = #[trigger] final(self).connections()[i];
                    if o.url@ == url@ {
                        &&& n.url == o.url
                        &&& n.status == ConnectionStatus::Disconnected
                        &&& n.retired == o.retired
                        &&& n.last_frame == o.last_frame
                        &&& n.failures == next_failures(o.failures)
                        &&& r == retry_delay_spec(n.failures as nat)
                    } else {
                        n == o
                    }
                },
            !has_url(old(self).connections(), url@) ==> r == 1,
            1 <= r <= MAX_RETRY_DELAY_SECS,
    {
        self.record_failure(url, ConnectionStatus::Disconnected)
    }

    /// The handshake with `url` failed: the connection is marked failed and
    /// one more failure is counted (saturating); returns the redial delay for
    /// that count.
    pub fn on_handshake_failed(&mut self, url: &String) -> (r: u64)
        requires
            old(self).wf(),
        ensures
            final(self).wf(),
            final(self).connections().len() == old(self).connections().len(),
            forall|i: int|
                0 <= i < old(self).connections().len() ==> {
                    let o = old(self).connections()[i];
                    let n = #[trigger] final(self).connections()[i];
                    if o.url@ == url@ {
                        &&& n.url == o.url
                        &&& n.status == ConnectionStatus::Failed
                        &&& n.retired == o.retired
                        &&& n.last_frame == o.last_frame
                        &&& n.failures == next_failures(o.failures)
                        &&& r == retry_delay_spec(n.failures as nat)
                    } else {
                        n == o
                    }
                },
            !has_url(old(self).connections(), url@) ==> r == 1,
            1 <= r <= MAX_RETRY_DELAY_SECS,
    {
        self.record_failure(url, ConnectionStatus::Failed)
    }

    /// Closes `url` for good: disconnected and retired until added again.
    /// `false` when the relay is not known.
    pub fn disconnect_relay(&mut self, url: &String) -> (r: bool)
        requires
            old(self).wf(),
        ensures
            final(self).wf(),
            r == has_url(old(self).connections(), url@),
            forall|i: int|
                0 <= i < final(self).connections().len() && final(self).connections()[i].url@ == url@
                    ==> final(self).connections()[i].status == ConnectionStatus::Disconnected
                    && final(self).connections()[i].retired,
    {
        self.update(url, ConnectionStatus::Disconnected, Some(true), None, None)
    }

    /// One health check at `now`. Each redial candidate (not retired, and
    /// dropped, failed, or live with no frame for more than twice the
    /// interval) is marked connecting and returned for dialling while fewer
    /// than `max_connections` dials are under way; past that cap it is left
    /// disconnected. Every other connection is untouched.
    pub fn health_check(&mut self, now: u64) -> (r: Vec<String>)
        requires
            old(self).wf(),
        ensures
            final(self).wf(),
            final(self).connections().len() == old(self).connections().len(),
            forall|i: int|
                0 <= i < final(self).connections().len() ==> {
                    let o = old(self).connections()[i];
                    let n = #[trigger] final(self).connections()[i];
                    if redial_candidate(o, now, old(self).interval_spec()) {
                        &&& n.url == o.url
                        &&& n.retired == o.retired
                        &&& n.failures == o.failures
                        &&& n.last_frame == o.last_frame
                        &&& ((n.status == ConnectionStatus::Connecting && url_views(r@).contains(n.url@))
                            || (n.status == ConnectionStatus::Disconnected && count_status(
                            final(self).connections(),
                            ConnectionStatus::Connecting,
                        ) >= old(self).max_connections_spec()))
                    } else {
                        n == o
                    }
                },
            forall|j: int| 0 <= j < r@.len() ==> dialling(final(self).connections(), (#[trigger] r@[j])@),
            final(self).max_connections_spec() == old(self).max_connections_spec(),
            final(self).interval_spec() == old(self).interval_spec(),
    {
        let limit: u64 = if self.health_check_interval > u64::MAX / 2 {
            u64::MAX
        } else {
            2 * self.health_check_interval
        };
        let mut connecting = self.count_connecting();
        let mut out: Vec<String> = Vec::new();
        let mut i: usize = 0;
        let ghost c0 = self.conns@;
        let ghost interval = self.health_check_interval;
        let ghost mut marked: Seq<int> = Seq::empty();
        while i < self.conns.len()
            invariant
                0 <= i <= self.conns@.len(),
                self.conns@.len() == c0.len(),
                self.health_check_interval == interval,
                self.max_connections == old(self).max_connections,
                interval == old(self).health_check_interval,
                limit as int == (if interval > u64::MAX / 2 {
                    u64::MAX as int
                } else {
                    2 * interval
                }),
                c0 == old(self).conns@,
                connecting == count_status(self.conns@, ConnectionStatus::Connecting),
                forall|j: int| i <= j < c0.len() ==> #[trigger] self.conns@[j] == c0[j],
                forall|j: int|
                    0 <= j < i ==> {
                        let o = c0[j];
                        let n = #[trigger] self.conns@[j];
                        if redial_candidate(o, now, interval) {
                            &&& n.url == o.url
                            &&& n.retired == o.retired
                            &&& n.failures == o.failures
                            &&& n.last_frame == o.last_frame
                            &&& ((n.status == ConnectionStatus::Connecting && url_views(out@).contains(n.url@))
                                || (n.status == ConnectionStatus::Disconnected && connecting
                                >= self.max_connections))
                        } else {
                            n == o
                        }
                    },
                marked.len() == out@.len(),
                forall|j: int|
                    0 <= j < out@.len() ==> 0 <= #[trigger] marked[j] < i && self.conns@[marked[j]].url@
                        == out@[j]@ && self.conns@[marked[j]].status == ConnectionStatus::Connecting,
            decreases c0.len() - i,
        {
            let c = &self.conns[i];
            let live = c.status == ConnectionStatus::Connected || c.status == ConnectionStatus::Subscribed;
            let stale = live && now > c.last_frame && now - c.last_frame > limit;
            let idle = c.status == ConnectionStatus::Disconnected || c.status == ConnectionStatus::Failed;
            assert((!c.retired && (stale || idle)) == redial_candidate(c0[i as int], now, interval));
            if !c.retired && (stale || idle) {
                let ghost out0 = out@;
                let ghost m0 = marked;
                let ghost conn0 = connecting;
                let dial = connecting < self.max_connections;
                let next = if dial {
                    connecting = connecting + 1;
                    out.push(c.url.clone());
                    proof {
                        marked = marked.push(i as int);
                    }
                    ConnectionStatus::Connecting
                } else {
                    ConnectionStatus::Disconnected
                };
                let c2 = RelayConnection {
                    url: c.url.clone(),
                    status: next,
                    retired: c.retired,
                    failures: c.failures,
                    last_frame: c.last_frame,
                };
                let ghost before = self.conns@;
                self.conns.set(i, c2);
                proof {
                    lemma_count_status_update(before, i as int, c2, ConnectionStatus::Connecting);
                    assert(url_views(out@) == (if dial { url_views(out0).push(c2.url@) } else { url_views(out0) }));
                    assert forall|j: int| 0 <= j < out@.len() implies 0 <= #[trigger] marked[j] < i + 1
                        && self.conns@[marked[j]].url@ == out@[j]@ && self.conns@[marked[j]].status
                        == ConnectionStatus::Connecting by {
                        if j < out0.len() {
                            assert(out@[j] == out0[j]);
                            assert(marked[j] == m0[j]);
                            assert(self.conns@[m0[j]] == before[m0[j]]);
                        } else {
                            assert(self.conns@[i as int].url@ == out@[j]@);
                        }
                    }
                    assert forall|j: int| 0 <= j < i + 1 implies {
                        let o = c0[j];
                        let n = #[trigger] self.conns@[j];
                        if redial_candidate(o, now, interval) {
                            &&& n.url == o.url
                            &&& n.retired == o.retired
                            &&& n.failures == o.failures
                            &&& n.last_frame == o.last_frame
                            &&& ((n.status == ConnectionStatus::Connecting && url_views(out@).contains(n.url@))
                                || (n.status == ConnectionStatus::Disconnected && connecting
                                >= self.max_connections))
                        } else {
                            n == o
                        }
                    } by {
                        if j < i {
                            assert(self.conns@[j] == before[j]);
                            if redial_candidate(c0[j], now, interval) && before[j].status == ConnectionStatus::Connecting {
                                let k = choose|k: int| 0 <= k < url_views(out0).len() && url_views(out0)[k] == before[j].url@;
                                if dial {
                                    assert(url_views(out@)[k] == before[j].url@);
                                }
                            }
                        } else if dial {
                            assert(url_views(out@)[out@.len() - 1] == c2.url@);
                        }
                    }
                }
            }
            i = i + 1;
        }
        proof {
            assert forall|j: int| 0 <= j < out@.len() implies dialling(self.connections(), (#[trigger] out@[j])@) by {
                let k = marked[j];
                assert(0 <= k < self.connections().len() && self.connections()[k].url@ == out@[j]@
                    && self.connections()[k].status == ConnectionStatus::Connecting);
            }
            assert forall|a: int, b: int|
                0 <= a < self.conns@.len() && 0 <= b < self.conns@.len() && a != b implies self.conns@[a].url@
                != self.conns@[b].url@ by {
                if redial_candidate(c0[a], now, interval) {
                } else {
                }
                assert(self.conns@[a].url@ == c0[a].url@ && self.conns@[b].url@ == c0[b].url@);
            }
        }
        out
    }

    /// The relay URLs, in the order they were added.
    pub fn list_relays(&self) -> (r: Vec<String>)
        ensures
            r@.len() == self.connections().len(),
            forall|i: int| 0 <= i < r@.len() ==> #[trigger] r@[i]@ == self.connections()[i].url@,
    {
        let mut out: Vec<String> = Vec::new();
        let mut i: usize = 0;
        while i < self.conns.len()
            invariant
                0 <= i <= self.conns@.len(),
                out@.len() == i,
                forall|j: int| 0 <= j < i ==> #[trigger] out@[j]@ == self.conns@[j].url@,
            decreases self.conns@.len() - i,
        {
            out.push(self.conns[i].url.clone());
            i = i + 1;
        }
        out
    }

    /// Each relay with its connection status.
    pub fn get_connection_statuses(&self) -> (r: Vec<(String, ConnectionStatus)>)
        ensures
            r@.len() == self.connections().len(),
            forall|i: int|
                0 <= i < r@.len() ==> (#[trigger] r@[i]).0@ == self.connections()[i].url@ && r@[i].1
                    == self.connections()[i].status,
    {
        let mut out: Vec<(String, ConnectionStatus)> = Vec::new();
        let mut i: usize = 0;
        while i < self.conns.len()
            invariant
                0 <= i <= self.conns@.len(),
                out@.len() == i,
                forall|j: int|
                    0 <= j < i ==> (#[trigger] out@[j]).0@ == self.conns@[j].url@ && out@[j].1
                        == self.conns@[j].status,
            decreases self.conns@.len() - i,
        {
            out.push((self.conns[i].url.clone(), self.conns[i].status));
            i = i + 1;
        }
        out
    }
}

} // verus!
