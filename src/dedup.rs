use vstd::prelude::*;

verus! {

/// The views of a list of event ids.
pub open spec fn id_views(v: Seq<String>) -> Seq<Seq<char>> {
    v.map_values(|s: String| s@)
}

/// Whether `id` occurs in `v`, scanning from the front.
pub fn contains_id(v: &Vec<String>, id: &String) -> (r: bool)
    ensures
        r == id_views(v@).contains(id@),
{
    let mut i: usize = 0;
    while i < v.len()
        invariant
            0 <= i <= v.len(),
            forall|j: int| 0 <= j < i ==> v@[j]@ != id@,
        decreases v.len() - i,
    {
        if v[i] == *id {
            assert(id_views(v@)[i as int] == id@);
            return true;
        }
        i = i + 1;
    }
    proof {
        if id_views(v@).contains(id@) {
            let k = choose|k: int| 0 <= k < id_views(v@).len() && id_views(v@)[k] == id@;
            assert(v@[k]@ == id@);
        }
    }
    false
}

/// Position of `id` in `v`, if it occurs.
fn position_of(v: &Vec<String>, id: &String) -> (r: Option<usize>)
    ensures
        r matches Some(k) ==> k < v.len() && v@[k as int]@ == id@,
        r is None ==> !id_views(v@).contains(id@),
{
    let mut i: usize = 0;
    while i < v.len()
        invariant
            0 <= i <= v.len(),
            forall|j: int| 0 <= j < i ==> v@[j]@ != id@,
        decreases v.len() - i,
    {
        if v[i] == *id {
            return Some(i);
        }
        i = i + 1;
    }
    proof {
        if id_views(v@).contains(id@) {
            let k = choose|k: int| 0 <= k < id_views(v@).len() && id_views(v@)[k] == id@;
            assert(v@[k]@ == id@);
        }
    }
    None
}

/// Number of bit positions set per id in the bloom filter.
pub const BLOOM_HASHES: u64 = 7;

/// Bloom filter bits reserved per expected id (about 1% false positives
/// with seven positions).
pub const BLOOM_BITS_PER_ID: u64 = 10;

/// Bounds on the bloom filter's size, in bits.
pub const BLOOM_MIN_BITS: u64 = 64;
pub const BLOOM_MAX_BITS: u64 = 0x100_0000_0000;

pub const FNV_PRIME: u64 = 0x100_0000_01b3;
pub const FNV_BASIS: u64 = 0xcbf2_9ce4_8422_2325;
pub const FNV_BASIS_ALT: u64 = 0x8422_2325_cbf2_9ce4;

/// 64-bit FNV-1a over the characters of `s`, from the given offset basis.
pub open spec fn fnv_hash(s: Seq<char>, basis: u64) -> u64
    decreases s.len(),
{
    if s.len() == 0 {
        basis
    } else {
        vstd::wrapping::u64_specs::wrapping_mul(
            fnv_hash(s.drop_last(), basis) ^ ((s.last() as u32) as u64),
            FNV_PRIME,
        )
    }
}

/// The `i`-th bit position of `id` in a filter of `nbits` bits (double hashing).
pub open spec fn bloom_pos(id: Seq<char>, i: u64, nbits: u64) -> u64 {
    let h1 = fnv_hash(id, FNV_BASIS) % nbits;
    let h2 = fnv_hash(id, FNV_BASIS_ALT) % nbits;
    ((h1 + (i * h2) % (nbits as int)) % (nbits as int)) as u64
}

pub open spec fn bit_set(bits: Seq<u64>, p: u64) -> bool {
    (bits[(p / 64) as int] >> (p % 64)) & 1u64 == 1u64
}

fn fnv(s: &String, basis: u64) -> (r: u64)
    ensures
        r == fnv_hash(s@, basis),
{
    let n = s.as_str().unicode_len();
    let mut h = basis;
    let mut i: usize = 0;
    assert(s@.subrange(0, 0) =~= Seq::<char>::empty());
    while i < n
        invariant
            0 <= i <= n,
            n == s@.len(),
            h == fnv_hash(s@.subrange(0, i as int), basis),
        decreases n - i,
    {
        let c = s.as_str().get_char(i);
        assert(s@.subrange(0, i + 1).drop_last() =~= s@.subrange(0, i as int));
        h = (h ^ (c as u32 as u64)).wrapping_mul(FNV_PRIME);
        i = i + 1;
    }
    assert(s@.subrange(0, n as int) =~= s@);
    h
}

proof fn lemma_bit_or_keeps(x: u64, m: u64, c: u64)
    requires
        c < 64,
        (x >> c) & 1u64 == 1u64,
    ensures
        ((x | m) >> c) & 1u64 == 1u64,
{
    assert(((x | m) >> c) & 1u64 == 1u64) by (bit_vector)
        requires
            c < 64,
            (x >> c) & 1u64 == 1u64,
    ;
}

proof fn lemma_bit_or_sets(x: u64, b: u64)
    requires
        b < 64,
    ensures
        ((x | (1u64 << b)) >> b) & 1u64 == 1u64,
{
    assert(((x | (1u64 << b)) >> b) & 1u64 == 1u64) by (bit_vector)
        requires
            b < 64,
    ;
}

/// A bloom filter over event ids: a negative answer is definite.
pub struct BloomFilter {
    bits: Vec<u64>,
    nbits: u64,
}

impl BloomFilter {
    pub closed spec fn wf(&self) -> bool {
        &&& self.nbits == self.bits@.len() * 64
        &&& BLOOM_MIN_BITS <= self.nbits <= BLOOM_MAX_BITS
    }

    /// Whether every position of `id` is set.
    pub closed spec fn holds(&self, id: Seq<char>) -> bool {
        forall|i: u64| i < BLOOM_HASHES ==> #[trigger] bit_set(self.bits@, bloom_pos(id, i, self.nbits))
    }

    /// A filter sized for `capacity` ids (within the size bounds).
    pub fn new(capacity: usize) -> (r: BloomFilter)
        ensures
            r.wf(),
    {
        let cap = capacity as u64;
        let want: u64 = if cap >= BLOOM_MAX_BITS / BLOOM_BITS_PER_ID {
            BLOOM_MAX_BITS
        } else if cap * BLOOM_BITS_PER_ID < BLOOM_MIN_BITS {
            BLOOM_MIN_BITS
        } else {
            cap * BLOOM_BITS_PER_ID
        };
        let words = (want + 63) / 64;
        let bits = vec![0u64; words as usize];
        BloomFilter { bits, nbits: words * 64 }
    }

    fn position(&self, h1: u64, h2: u64, i: u64) -> (p: u64)
        requires
            self.wf(),
            i < BLOOM_HASHES,
            h1 < self.nbits,
            h2 < self.nbits,
        ensures
            p == ((h1 + (i * h2) % (self.nbits as int)) % (self.nbits as int)) as u64,
            p < self.nbits,
    {
        assert(i * h2 <= 7 * BLOOM_MAX_BITS) by (nonlinear_arith)
            requires
                i < 7,
                h2 < BLOOM_MAX_BITS,
        ;
        (h1 + (i * h2) % self.nbits) % self.nbits
    }

    fn hashes(&self, id: &String) -> (r: (u64, u64))
        requires
            self.wf(),
        ensures
            r.0 == fnv_hash(id@, FNV_BASIS) % self.nbits,
            r.1 == fnv_hash(id@, FNV_BASIS_ALT) % self.nbits,
            r.0 < self.nbits,
            r.1 < self.nbits,
    {
        (fnv(id, FNV_BASIS) % self.nbits, fnv(id, FNV_BASIS_ALT) % self.nbits)
    }

    /// Sets every position of `id`; ids held before are still held.
    pub fn insert(&mut self, id: &String)
        requires
            old(self).wf(),
        ensures
            final(self).wf(),
            final(self).holds(id@),
            forall|x: Seq<char>| old(self).holds(x) ==> final(self).holds(x),
    {
        let (h1, h2) = self.hashes(id);
        let ghost b0 = self.bits@;
        let mut i: u64 = 0;
        while i < BLOOM_HASHES
            invariant
                self.wf(),
                self.nbits == old(self).nbits,
                self.bits@.len() == b0.len(),
                h1 == fnv_hash(id@, FNV_BASIS) % self.nbits,
                h2 == fnv_hash(id@, FNV_BASIS_ALT) % self.nbits,
                h1 < self.nbits,
                h2 < self.nbits,
                b0 == old(self).bits@,
                0 <= i <= BLOOM_HASHES,
                forall|q: u64| q < self.nbits && #[trigger] bit_set(b0, q) ==> bit_set(self.bits@, q),
                forall|k: u64| k < i ==> #[trigger] bit_set(self.bits@, bloom_pos(id@, k, self.nbits)),
            decreases BLOOM_HASHES - i,
        {
            let p = self.position(h1, h2, i);
            assert(p == bloom_pos(id@, i, self.nbits));
            let nwords = self.bits.len();
            assert(p / 64 < nwords);
            let w = (p / 64) as usize;
            let b = p % 64;
            assert(w as int == (p / 64) as int);
            let ghost before = self.bits@;
            let word = self.bits[w];
            self.bits.set(w, word | (1u64 << b));
            proof {
                lemma_bit_or_sets(word, b);
                assert forall|q: u64| q < self.nbits && bit_set(before, q) implies #[trigger] bit_set(self.bits@, q) by {
                    if (q / 64) as int == w as int {
                        lemma_bit_or_keeps(word, 1u64 << b, q % 64);
                    } else {
                        assert(self.bits@[(q / 64) as int] == before[(q / 64) as int]);
                    }
                }
                assert(bit_set(self.bits@, p));
                assert forall|k: u64| k < i + 1 implies #[trigger] bit_set(self.bits@, bloom_pos(id@, k, self.nbits)) by {
                    if k < i {
                        assert(bit_set(before, bloom_pos(id@, k, self.nbits)));
                        assert(bloom_pos(id@, k, self.nbits) < self.nbits);
                    }
                }
            }
            i = i + 1;
        }
        proof {
            assert forall|x: Seq<char>| old(self).holds(x) implies self.holds(x) by {
                assert forall|k: u64| k < BLOOM_HASHES implies #[trigger] bit_set(self.bits@, bloom_pos(x, k, self.nbits)) by {
                    assert(bit_set(b0, bloom_pos(x, k, self.nbits)));
                    assert(bloom_pos(x, k, self.nbits) < self.nbits);
                }
            }
        }
    }

    pub closed spec fn bits_spec(&self) -> u64 {
        self.nbits
    }

    /// Size of the filter in bits.
    pub fn size(&self) -> (r: u64)
        ensures
            r == self.bits_spec(),
    {
        self.nbits
    }

    /// `false` only for an id that is surely not held.
    pub fn maybe_contains(&self, id: &String) -> (r: bool)
        requires
            self.wf(),
        ensures
            r == self.holds(id@),
    {
        let (h1, h2) = self.hashes(id);
        let mut i: u64 = 0;
        while i < BLOOM_HASHES
            invariant
                self.wf(),
                h1 == fnv_hash(id@, FNV_BASIS) % self.nbits,
                h2 == fnv_hash(id@, FNV_BASIS_ALT) % self.nbits,
                h1 < self.nbits,
                h2 < self.nbits,
                0 <= i <= BLOOM_HASHES,
                forall|k: u64| k < i ==> #[trigger] bit_set(self.bits@, bloom_pos(id@, k, self.nbits)),
            decreases BLOOM_HASHES - i,
        {
            let p = self.position(h1, h2, i);
            assert(p == bloom_pos(id@, i, self.nbits));
            let nwords = self.bits.len();
            assert(p / 64 < nwords);
            let w = (p / 64) as usize;
            assert(w as int == (p / 64) as int);
            if (self.bits[w] >> (p % 64)) & 1u64 != 1u64 {
                assert(!bit_set(self.bits@, bloom_pos(id@, i, self.nbits)));
                return false;
            }
            i = i + 1;
        }
        true
    }
}

/// Sizes of the engine's tiers.
#[derive(Clone, Copy, Debug, PartialEq, Eq, Structural)]
pub struct DedupStats {
    pub hot_set_size: usize,
    pub bloom_filter_bits: u64,
    pub lru_cache_size: usize,
    pub index_count: usize,
}

/// Deduplication over event ids that were accepted for forwarding.
///
/// Four tiers are consulted in order: a FIFO hot set of the latest ids, a
/// bloom filter whose negative answer is definite, an LRU cache of confirmed
/// ids, and the forward index, which is authoritative and mirrors the durable
/// store (one entry per forward, oldest first). The caches only ever hold ids
/// that the index holds, and the bloom filter holds every one of them.
pub struct DedupEngine {
    hot: Vec<String>,
    hot_capacity: usize,
    bloom: BloomFilter,
    lru: Vec<String>,
    lru_capacity: usize,
    index: Vec<String>,
}

impl DedupEngine {
    /// The forward index: every id recorded as forwarded, oldest first.
    pub closed spec fn log(&self) -> Seq<Seq<char>> {
        id_views(self.index@)
    }

    /// The ids that count as duplicates.
    pub open spec fn forwarded(&self) -> Set<Seq<char>> {
        self.log().to_set()
    }

    /// Number of ids in the hot set.
    pub closed spec fn hot_len(&self) -> nat {
        self.hot@.len()
    }

    /// Number of ids in the LRU cache.
    pub closed spec fn lru_len(&self) -> nat {
        self.lru@.len()
    }

    /// Size of the bloom filter in bits.
    pub closed spec fn bloom_bits(&self) -> u64 {
        self.bloom.bits_spec()
    }

    pub closed spec fn hot_capacity_spec(&self) -> nat {
        self.hot_capacity as nat
    }

    pub closed spec fn lru_capacity_spec(&self) -> nat {
        self.lru_capacity as nat
    }

    pub closed spec fn wf(&self) -> bool {
        &&& self.hot.len() <= self.hot_capacity
        &&& self.lru.len() <= self.lru_capacity
        &&& self.bloom.wf()
        &&& forall|j: int| 0 <= j < self.log().len() ==> #[trigger] self.bloom.holds(self.log()[j])
        &&& forall|i: int|
            0 <= i < self.hot.len() ==> #[trigger] self.log().contains(self.hot@[i]@)
        &&& forall|i: int|
            0 <= i < self.lru.len() ==> #[trigger] self.log().contains(self.lru@[i]@)
    }

    /// An engine with an empty index.
    pub fn new(hot_capacity: usize, bloom_capacity: usize, lru_capacity: usize) -> (r: DedupEngine)
        ensures
            r.wf(),
            r.log() == Seq::<Seq<char>>::empty(),
            r.hot_capacity_spec() == hot_capacity,
            r.lru_capacity_spec() == lru_capacity,
    {
        let r = DedupEngine {
            hot: Vec::new(),
            hot_capacity,
            bloom: BloomFilter::new(bloom_capacity),
            lru: Vec::new(),
            lru_capacity,
            index: Vec::new(),
        };
        assert(r.log() =~= Seq::<Seq<char>>::empty());
        r
    }

    /// An engine over a forward index read back from the durable store; the
    /// newest `hot_capacity` ids (at most `lru_capacity` of them for the LRU)
    /// are preloaded into the caches.
    pub fn warm_start(index: Vec<String>, hot_capacity: usize, bloom_capacity: usize, lru_capacity: usize) -> (r: DedupEngine)
        ensures
            r.wf(),
            r.log() == id_views(index@),
            r.hot_capacity_spec() == hot_capacity,
            r.lru_capacity_spec() == lru_capacity,
    {
        let n = index.len();
        let mut bloom = BloomFilter::new(bloom_capacity);
        let mut k: usize = 0;
        while k < n
            invariant
                0 <= k <= n,
                n == index.len(),
                bloom.wf(),
                forall|j: int| 0 <= j < k ==> #[trigger] bloom.holds(id_views(index@)[j]),
            decreases n - k,
        {
            bloom.insert(&index[k]);
            k = k + 1;
        }
        let mut start: usize = 0;
        if n > hot_capacity {
            start = n - hot_capacity;
        }
        let mut lru_start: usize = 0;
        if n > lru_capacity {
            lru_start = n - lru_capacity;
        }
        if lru_start < start {
            lru_start = start;
        }
        let mut hot: Vec<String> = Vec::new();
        let mut lru: Vec<String> = Vec::new();
        let mut i: usize = start;
        while i < n
            invariant
                start <= i <= n,
                n == index.len(),
                start <= lru_start,
                n - start <= hot_capacity,
                n - lru_start <= lru_capacity,
                hot.len() == i - start,
                lru.len() == if i <= lru_start { 0 } else { i - lru_start },
                forall|j: int| 0 <= j < hot.len() ==> #[trigger] id_views(index@).contains(hot@[j]@),
                forall|j: int| 0 <= j < lru.len() ==> #[trigger] id_views(index@).contains(lru@[j]@),
            decreases n - i,
        {
            let id = index[i].clone();
            assert(id_views(index@)[i as int] == id@);
            if i >= lru_start {
                lru.push(id.clone());
            }
            hot.push(id);
            i = i + 1;
        }
        DedupEngine { hot, hot_capacity, bloom, lru, lru_capacity, index }
    }

    /// `true` iff `id` was recorded as forwarded. An id found only in the
    /// index is promoted into the LRU cache; a cached hit is refreshed there.
    pub fn is_duplicate(&mut self, id: &String) -> (r: bool)
        requires
            old(self).wf(),
        ensures
            final(self).wf(),
            final(self).log() == old(self).log(),
            final(self).hot_capacity_spec() == old(self).hot_capacity_spec(),
            final(self).lru_capacity_spec() == old(self).lru_capacity_spec(),
            r == old(self).forwarded().contains(id@),
    {
        if contains_id(&self.hot, id) {
            proof {
                let k = choose|k: int|
                    0 <= k < id_views(self.hot@).len() && id_views(self.hot@)[k] == id@;
                assert(self.hot@[k]@ == id@);
            }
            return true;
        }
        if !self.bloom.maybe_contains(id) {
            proof {
                if self.log().contains(id@) {
                    let j = choose|j: int| 0 <= j < self.log().len() && self.log()[j] == id@;
                    assert(self.bloom.holds(self.log()[j]));
                }
            }
            return false;
        }
        if contains_id(&self.lru, id) {
            proof {
                let k = choose|k: int|
                    0 <= k < id_views(self.lru@).len() && id_views(self.lru@)[k] == id@;
                assert(self.lru@[k]@ == id@);
                assert(self.log().contains(self.lru@[k]@));
            }
            self.touch_lru(id);
            return true;
        }
        if contains_id(&self.index, id) {
            self.touch_lru(id);
            return true;
        }
        proof {
            assert(!self.log().contains(id@));
        }
        false
    }

    /// Moves `id` (which the index holds) to the most recent end of the LRU
    /// cache, evicting the least recent entry when full.
    fn touch_lru(&mut self, id: &String)
        requires
            old(self).wf(),
            old(self).log().contains(id@),
        ensures
            final(self).wf(),
            final(self).log() == old(self).log(),
            final(self).hot == old(self).hot,
            final(self).bloom == old(self).bloom,
            final(self).hot_capacity == old(self).hot_capacity,
            final(self).lru_capacity == old(self).lru_capacity,
    {
        match position_of(&self.lru, id) {
            Some(k) => {
                let e = self.lru.remove(k);
                self.lru.push(e);
            },
            None => {
                if self.lru_capacity == 0 {
                    return;
                }
                if self.lru.len() >= self.lru_capacity {
                    self.lru.remove(0);
                }
                self.lru.push(id.clone());
            },
        }
        proof {
            assert forall|i: int| 0 <= i < self.lru.len() implies #[trigger] self.log().contains(
                self.lru@[i]@,
            ) by {
                if i == self.lru.len() - 1 {
                } else {
                    let j = choose|j: int|
                        0 <= j < old(self).lru.len() && old(self).lru@[j] == self.lru@[i];
                    assert(old(self).log().contains(old(self).lru@[j]@));
                }
            }
        }
    }

    /// Records `id` as forwarded: appends it to the forward index and enters it
    /// into both caches.
    pub fn record_forwarded(&mut self, id: String)
        requires
            old(self).wf(),
        ensures
            final(self).wf(),
            final(self).log() == old(self).log().push(id@),
            final(self).forwarded() == old(self).forwarded().insert(id@),
            final(self).hot_capacity_spec() == old(self).hot_capacity_spec(),
            final(self).lru_capacity_spec() == old(self).lru_capacity_spec(),
    {
        let ghost b0 = self.bloom;
        self.bloom.insert(&id);
        self.index.push(id.clone());
        proof {
            assert forall|j: int| 0 <= j < self.log().len() implies #[trigger] self.bloom.holds(self.log()[j]) by {
                if j < old(self).log().len() {
                    assert(self.log()[j] == old(self).log()[j]);
                    assert(b0.holds(old(self).log()[j]));
                }
            }
            assert(id_views(self.index@) =~= id_views(old(self).index@).push(id@));
            assert(self.log()[self.log().len() - 1] == id@);
            assert forall|i: int| 0 <= i < self.hot.len() implies #[trigger] self.log().contains(
                self.hot@[i]@,
            ) by {
                assert(old(self).log().contains(old(self).hot@[i]@));
                let j = choose|j: int|
                    0 <= j < old(self).log().len() && old(self).log()[j] == self.hot@[i]@;
                assert(self.log()[j] == old(self).log()[j]);
            }
            assert forall|i: int| 0 <= i < self.lru.len() implies #[trigger] self.log().contains(
                self.lru@[i]@,
            ) by {
                assert(old(self).log().contains(old(self).lru@[i]@));
                let j = choose|j: int|
                    0 <= j < old(self).log().len() && old(self).log()[j] == self.lru@[i]@;
                assert(self.log()[j] == old(self).log()[j]);
            }
        }
        self.touch_lru(&id);
        if self.hot_capacity > 0 && !contains_id(&self.hot, &id) {
            let ghost before = self.hot@;
            if self.hot.len() >= self.hot_capacity {
                self.hot.remove(0);
            }
            self.hot.push(id);
            proof {
            assert forall|i: int| 0 <= i < self.hot.len() implies #[trigger] self.log().contains(
                self.hot@[i]@,
            ) by {
                if i == self.hot.len() - 1 {
                    assert(self.log()[self.log().len() - 1] == self.hot@[i]@);
                } else {
                    let j = choose|j: int| 0 <= j < before.len() && before[j] == self.hot@[i];
                    assert(self.log().contains(before[j]@));
                }
            }
            }
        }
        proof {
            old(self).log().lemma_push_to_set_commute(id@);
        }
    }

    /// The newest `limit` ids of the forward index, newest first.
    pub fn iterate_forward_desc(&self, limit: usize) -> (r: Vec<String>)
        ensures
            r@.len() == (if limit < self.log().len() {
                limit as nat
            } else {
                self.log().len()
            }),
            forall|i: int| 0 <= i < r@.len() ==> #[trigger] r@[i]@ == self.log()[self.log().len() - 1 - i],
    {
        let n = self.index.len();
        let mut out: Vec<String> = Vec::new();
        let mut i: usize = 0;
        while i < n && i < limit
            invariant
                0 <= i <= n,
                i <= limit,
                n == self.index@.len(),
                out@.len() == i,
                forall|j: int| 0 <= j < i ==> #[trigger] out@[j]@ == self.log()[n - 1 - j],
            decreases n - i,
        {
            out.push(self.index[n - 1 - i].clone());
            i = i + 1;
        }
        out
    }

    /// Sizes of the tiers.
    pub fn stats(&self) -> (r: DedupStats)
        requires
            self.wf(),
        ensures
            r.index_count == self.log().len(),
            r.hot_set_size == self.hot_len(),
            r.lru_cache_size == self.lru_len(),
            r.bloom_filter_bits == self.bloom_bits(),
    {
        DedupStats {
            hot_set_size: self.hot.len(),
            bloom_filter_bits: self.bloom.size(),
            lru_cache_size: self.lru.len(),
            index_count: self.index.len(),
        }
    }
}

} // verus!
