//! Multi-tier cache: L1 memory (LRU), L2 shared store, L3 CDN.

use vstd::prelude::*;
use vstd::hash_map::StringHashMap;
use lru::LruCache;
use crate::text::{owned, concat3, starts_with_seq, str_starts_with, str_eq};

verus! {

/// Cache layer identifier.
#[derive(Clone, Copy, Debug, PartialEq, Eq, Structural)]
pub enum CacheLayer {
    L1Memory,
    L2Redis,
    L3Cdn,
}

/// Multi-tier Horizon cache configuration.
#[derive(Clone, Debug)]
pub struct HorizonCacheConfig {
    pub l1_capacity: usize,
    pub l1_ttl_secs: u64,
    pub l2_redis_enabled: bool,
    pub l2_redis_url: String,
    pub l2_ttl_secs: u64,
    pub l3_cdn_enabled: bool,
    pub l3_cdn_prefix: String,
    pub l3_ttl_secs: u64,
    pub compression_enabled: bool,
}

fn default_l1_capacity() -> (r: usize)
    ensures r == 4096,
{
    4096
}

fn default_l1_ttl_secs() -> (r: u64)
    ensures r == 60,
{
    60
}

fn default_l2_enabled() -> (r: bool)
    ensures r,
{
    true
}

fn default_redis_url() -> (r: String)
    ensures r@ == "redis://horizon-redis:6379"@,
{
    owned("redis://horizon-redis:6379")
}

fn default_l2_ttl_secs() -> (r: u64)
    ensures r == 300,
{
    300
}

fn default_l3_enabled() -> (r: bool)
    ensures !r,
{
    false
}

fn default_cdn_prefix() -> (r: String)
    ensures r@ == "https://cdn.horizon.example.com/cache"@,
{
    owned("https://cdn.horizon.example.com/cache")
}

fn default_l3_ttl_secs() -> (r: u64)
    ensures r == 3600,
{
    3600
}

fn default_compression() -> (r: bool)
    ensures r,
{
    true
}

impl Default for HorizonCacheConfig {
    fn default() -> (r: Self)
        ensures
            r.l1_capacity == 4096,
            r.l1_ttl_secs == 60,
            r.l2_redis_enabled,
            r.l2_redis_url@ == "redis://horizon-redis:6379"@,
            r.l2_ttl_secs == 300,
            !r.l3_cdn_enabled,
            r.l3_cdn_prefix@ == "https://cdn.horizon.example.com/cache"@,
            r.l3_ttl_secs == 3600,
            r.compression_enabled,
    {
        HorizonCacheConfig {
            l1_capacity: default_l1_capacity(),
            l1_ttl_secs: default_l1_ttl_secs(),
            l2_redis_enabled: default_l2_enabled(),
            l2_redis_url: default_redis_url(),
            l2_ttl_secs: default_l2_ttl_secs(),
            l3_cdn_enabled: default_l3_enabled(),
            l3_cdn_prefix: default_cdn_prefix(),
            l3_ttl_secs: default_l3_ttl_secs(),
            compression_enabled: default_compression(),
        }
    }
}

/// Cache hit/miss statistics.
#[derive(Clone, Copy, Debug, PartialEq, Eq, Structural)]
pub struct CacheStats {
    pub l1_hits: u64,
    pub l1_misses: u64,
    pub l2_hits: u64,
    pub l2_misses: u64,
    pub l3_hits: u64,
    pub l3_misses: u64,
    pub total_puts: u64,
    pub total_evictions: u64,
}

impl Default for CacheStats {
    fn default() -> (r: Self)
        ensures
            r == (CacheStats { l1_hits: 0, l1_misses: 0, l2_hits: 0, l2_misses: 0, l3_hits: 0, l3_misses: 0, total_puts: 0, total_evictions: 0 }),
    {
        CacheStats { l1_hits: 0, l1_misses: 0, l2_hits: 0, l2_misses: 0, l3_hits: 0, l3_misses: 0, total_puts: 0, total_evictions: 0 }
    }
}

impl CacheStats {
    /// No counter is at its maximum, so one more event can be counted.
    pub open spec fn has_room(self) -> bool {
        &&& self.l1_hits < u64::MAX
        &&& self.l1_misses < u64::MAX
        &&& self.l2_hits < u64::MAX
        &&& self.l2_misses < u64::MAX
        &&& self.l3_hits < u64::MAX
        &&& self.l3_misses < u64::MAX
        &&& self.total_puts < u64::MAX
        &&& self.total_evictions < u64::MAX
    }
}

/// A cached response: its bytes, when it was stored (milliseconds on the
/// cache's clock), how long it stays fresh (seconds), and its layer.
#[derive(Debug)]
pub struct CacheEntry {
    pub data: Vec<u8>,
    pub created_ms: u64,
    pub ttl_secs: u64,
    pub layer: CacheLayer,
}

/// The plain contents of a cache entry.
pub type EntryView = (Seq<u8>, u64, u64, CacheLayer);

impl CacheEntry {
    /// The entry as its payload, store time, TTL and layer.
    pub open spec fn view(&self) -> EntryView {
        (self.data@, self.created_ms, self.ttl_secs, self.layer)
    }
}

/// An entry is fresh at `now_ms` while less than its TTL has elapsed since it
/// was stored (a clock reading before the store time counts as no time).
pub open spec fn fresh(e: EntryView, now_ms: u64) -> bool {
    (if now_ms >= e.1 { now_ms - e.1 } else { 0int }) < e.2 as int * 1000
}

proof fn lemma_div_lt(a: u64, t: u64)
    ensures
        (a / 1000 < t) <==> (a as int) < (t as int) * 1000,
{
    assert((a / 1000 < t) <==> (a as int) < (t as int) * 1000) by (nonlinear_arith);
}

fn is_fresh(e: &CacheEntry, now_ms: u64) -> (r: bool)
    ensures
        r == fresh(e.view(), now_ms),
{
    let elapsed: u64 = if now_ms >= e.created_ms { now_ms - e.created_ms } else { 0 };
    proof { lemma_div_lt(elapsed, e.ttl_secs); }
    elapsed / 1000 < e.ttl_secs
}

fn copy_bytes(v: &Vec<u8>) -> (r: Vec<u8>)
    ensures
        r@ == v@,
{
    let mut r: Vec<u8> = Vec::new();
    let mut i: usize = 0;
    while i < v.len()
        invariant
            i <= v.len(),
            r@ == v@.take(i as int),
        decreases v.len() - i,
    {
        r.push(v[i]);
        i += 1;
        assert(r@ =~= v@.take(i as int));
    }
    assert(v@.take(v.len() as int) =~= v@);
    r
}

// ── L1: the LRU ─────────────────────────────────────────────────────────────

/// The in-memory LRU layer, an `lru::LruCache` from keys to entries.
#[verifier::external_body]
pub struct L1Lru {
    inner: LruCache<String, CacheEntry>,
}

/// The LRU's entries, most recently used first, keys by their characters.
pub uninterp spec fn lru_entries(c: L1Lru) -> Seq<(Seq<char>, EntryView)>;

/// The capacity the LRU was created with.
pub uninterp spec fn lru_capacity(c: L1Lru) -> nat;

/// No key occurs twice.
pub open spec fn keys_unique(s: Seq<(Seq<char>, EntryView)>) -> bool {
    forall|i: int, j: int| 0 <= i < s.len() && 0 <= j < s.len() && i != j ==> s[i].0 != s[j].0
}

/// Position of `k` in the LRU order.
pub open spec fn lru_find(s: Seq<(Seq<char>, EntryView)>, k: Seq<char>) -> Option<int> {
    if exists|i: int| 0 <= i < s.len() && s[i].0 == k {
        Some(choose|i: int| 0 <= i < s.len() && s[i].0 == k)
    } else {
        None
    }
}

/// Moves entry `i` to the most-recently-used position.
pub open spec fn lru_touch(s: Seq<(Seq<char>, EntryView)>, i: int) -> Seq<(Seq<char>, EntryView)> {
    seq![s[i]] + s.remove(i)
}

/// What `LruCache::put` does: an existing key is updated and moved to the
/// front; a new key goes to the front, evicting the least recently used
/// entry when the cache is full.
pub open spec fn lru_put(s: Seq<(Seq<char>, EntryView)>, cap: nat, k: Seq<char>, v: EntryView)
    -> Seq<(Seq<char>, EntryView)> {
    match lru_find(s, k) {
        Some(i) => seq![(k, v)] + s.remove(i),
        None => if s.len() < cap { seq![(k, v)] + s } else { seq![(k, v)] + s.drop_last() },
    }
}

/// What `LruCache::pop` does: the entry for `k`, if any, is removed.
pub open spec fn lru_pop(s: Seq<(Seq<char>, EntryView)>, k: Seq<char>) -> Seq<(Seq<char>, EntryView)> {
    match lru_find(s, k) {
        Some(i) => s.remove(i),
        None => s,
    }
}

/// The LRU is well formed: unique keys, at most `cap` entries, `cap > 0`.
pub open spec fn lru_wf(c: L1Lru) -> bool {
    &&& keys_unique(lru_entries(c))
    &&& lru_entries(c).len() <= lru_capacity(c)
    &&& lru_capacity(c) > 0
}

/// `LruCache::new`: an empty LRU holding at most `cap` entries.
#[verifier::external_body]
fn lru_new(cap: usize) -> (r: L1Lru)
    requires
        cap > 0,
    ensures
        lru_entries(r) == Seq::<(Seq<char>, EntryView)>::empty(),
        lru_capacity(r) == cap,
{
    L1Lru { inner: LruCache::new(std::num::NonZeroUsize::new(cap).unwrap()) }
}

/// `LruCache::get`: the entry for `key` (its freshness fields and a copy of
/// its data), moving it to the most-recently-used position.
#[verifier::external_body]
fn lru_get(c: &mut L1Lru, key: &str) -> (r: Option<CacheEntry>)
    requires
        lru_wf(*old(c)),
    ensures
        lru_capacity(*final(c)) == lru_capacity(*old(c)),
        match lru_find(lru_entries(*old(c)), key@) {
            Some(i) => r matches Some(e) && e.view() == lru_entries(*old(c))[i].1
                && lru_entries(*final(c)) == lru_touch(lru_entries(*old(c)), i),
            None => r is None && lru_entries(*final(c)) == lru_entries(*old(c)),
        },
{
    c.inner.get(key).map(|e| CacheEntry { data: e.data.clone(), created_ms: e.created_ms, ttl_secs: e.ttl_secs, layer: e.layer })
}

/// `LruCache::put`.
#[verifier::external_body]
fn lru_put_entry(c: &mut L1Lru, key: String, e: CacheEntry)
    requires
        lru_wf(*old(c)),
    ensures
        lru_capacity(*final(c)) == lru_capacity(*old(c)),
        lru_entries(*final(c)) == lru_put(lru_entries(*old(c)), lru_capacity(*old(c)), key@, e.view()),
{
    c.inner.put(key, e);
}

/// `LruCache::pop`.
#[verifier::external_body]
fn lru_pop_entry(c: &mut L1Lru, key: &str)
    requires
        lru_wf(*old(c)),
    ensures
        lru_capacity(*final(c)) == lru_capacity(*old(c)),
        lru_entries(*final(c)) == lru_pop(lru_entries(*old(c)), key@),
{
    c.inner.pop(key);
}

/// The LRU's keys, most recently used first (`LruCache::iter`).
#[verifier::external_body]
fn lru_keys(c: &L1Lru) -> (r: Vec<String>)
    ensures
        r@.map_values(|k: String| k@) == lru_entries(*c).map_values(|p: (Seq<char>, EntryView)| p.0),
{
    c.inner.iter().map(|(k, _)| k.clone()).collect()
}

proof fn lemma_lru_find_some(s: Seq<(Seq<char>, EntryView)>, i: int)
    requires
        keys_unique(s),
        0 <= i < s.len(),
    ensures
        lru_find(s, s[i].0) == Some(i),
{
}

proof fn lemma_lru_put_wf(s: Seq<(Seq<char>, EntryView)>, cap: nat, k: Seq<char>, v: EntryView)
    requires
        keys_unique(s),
        s.len() <= cap,
        cap > 0,
    ensures
        keys_unique(lru_put(s, cap, k, v)),
        lru_put(s, cap, k, v).len() <= cap,
{
    let r = lru_put(s, cap, k, v);
    match lru_find(s, k) {
        Some(i) => {
            assert forall|a: int, b: int| 0 <= a < r.len() && 0 <= b < r.len() && a != b implies r[a].0 != r[b].0 by {
                if a > 0 && b > 0 {
                    let a2 = if a - 1 < i { a - 1 } else { a };
                    let b2 = if b - 1 < i { b - 1 } else { b };
                    assert(r[a] == s[a2]);
                    assert(r[b] == s[b2]);
                } else if a == 0 {
                    let b2 = if b - 1 < i { b - 1 } else { b };
                    assert(r[b] == s[b2]);
                } else {
                    let a2 = if a - 1 < i { a - 1 } else { a };
                    assert(r[a] == s[a2]);
                }
            }
        },
        None => {
            let t = if s.len() < cap { s } else { s.drop_last() };
            assert(r =~= seq![(k, v)] + t);
            assert forall|a: int, b: int| 0 <= a < r.len() && 0 <= b < r.len() && a != b implies r[a].0 != r[b].0 by {
                if a > 0 {
                    assert(r[a] == s[a - 1]);
                }
                if b > 0 {
                    assert(r[b] == s[b - 1]);
                }
            }
        },
    }
}

proof fn lemma_lru_touch_wf(s: Seq<(Seq<char>, EntryView)>, i: int)
    requires
        keys_unique(s),
        0 <= i < s.len(),
    ensures
        keys_unique(lru_touch(s, i)),
        lru_touch(s, i).len() == s.len(),
{
    let r = lru_touch(s, i);
    assert forall|a: int, b: int| 0 <= a < r.len() && 0 <= b < r.len() && a != b implies r[a].0 != r[b].0 by {
        let a2 = if a == 0 { i } else if a - 1 < i { a - 1 } else { a };
        let b2 = if b == 0 { i } else if b - 1 < i { b - 1 } else { b };
        assert(r[a] == s[a2]);
        assert(r[b] == s[b2]);
    }
}

proof fn lemma_lru_pop_wf(s: Seq<(Seq<char>, EntryView)>, k: Seq<char>)
    requires
        keys_unique(s),
    ensures
        keys_unique(lru_pop(s, k)),
        lru_pop(s, k).len() <= s.len(),
        forall|j: int| 0 <= j < lru_pop(s, k).len() ==> #[trigger] lru_pop(s, k)[j].0 != k,
{
    let r = lru_pop(s, k);
    match lru_find(s, k) {
        Some(i) => {
            assert forall|a: int, b: int| 0 <= a < r.len() && 0 <= b < r.len() && a != b implies r[a].0 != r[b].0 by {
                let a2 = if a < i { a } else { a + 1 };
                let b2 = if b < i { b } else { b + 1 };
                assert(r[a] == s[a2]);
                assert(r[b] == s[b2]);
            }
            assert forall|j: int| 0 <= j < r.len() implies #[trigger] r[j].0 != k by {
                let j2 = if j < i { j } else { j + 1 };
                assert(r[j] == s[j2]);
            }
        },
        None => {},
    }
}

} // verus!

verus! {

/// The plain contents of a store: key to entry view.
pub open spec fn store_view(m: Map<Seq<char>, CacheEntry>) -> Map<Seq<char>, EntryView> {
    m.map_values(|e: CacheEntry| e.view())
}

/// The entry view stored by a `put` at `now_ms`.
pub open spec fn stored(data: Seq<u8>, now_ms: u64, ttl_secs: u64, layer: CacheLayer) -> EntryView {
    (data, now_ms, ttl_secs, layer)
}

proof fn lemma_store_insert(m: Map<Seq<char>, CacheEntry>, k: Seq<char>, e: CacheEntry)
    ensures
        store_view(m.insert(k, e)) == store_view(m).insert(k, e.view()),
{
    assert(store_view(m.insert(k, e)) =~= store_view(m).insert(k, e.view()));
}

proof fn lemma_store_remove(m: Map<Seq<char>, CacheEntry>, k: Seq<char>)
    ensures
        store_view(m.remove(k)) == store_view(m).remove(k),
{
    assert(store_view(m.remove(k)) =~= store_view(m).remove(k));
}

/// The keys held in `ks`.
pub open spec fn listed(ks: Seq<String>) -> Set<Seq<char>> {
    Set::new(|s: Seq<char>| exists|i: int| 0 <= i < ks.len() && ks[i]@ == s)
}

/// Every key that starts with `p`.
pub open spec fn prefixed(p: Seq<char>) -> Set<Seq<char>> {
    Set::new(|s: Seq<char>| has_prefix(s, p))
}

proof fn lemma_listed_push(ks: Seq<String>, k: String)
    ensures
        listed(ks.push(k)) == listed(ks).insert(k@),
{
    let n = ks.push(k);
    assert forall|s: Seq<char>| listed(n).contains(s) <==> listed(ks).contains(s) || s == k@ by {
        if listed(n).contains(s) {
            let i = choose|i: int| 0 <= i < n.len() && n[i]@ == s;
            if i < ks.len() {
                assert(ks[i] == n[i]);
            }
        }
        if listed(ks).contains(s) {
            let i = choose|i: int| 0 <= i < ks.len() && ks[i]@ == s;
            assert(n[i] == ks[i]);
        }
        if s == k@ {
            assert(n[ks.len() as int] == k);
        }
    }
    assert(listed(n) =~= listed(ks).insert(k@));
}

proof fn lemma_listed_take(ks: Seq<String>, i: int)
    requires
        0 <= i < ks.len(),
    ensures
        listed(ks.take(i + 1)) == listed(ks.take(i)).insert(ks[i]@),
{
    assert(ks.take(i + 1) =~= ks.take(i).push(ks[i]));
    lemma_listed_push(ks.take(i), ks[i]);
}

/// Entries by key, with the list of their keys kept beside the map so that
/// the keys can be walked.
pub struct EntryTable {
    data: StringHashMap<CacheEntry>,
    keys: Vec<String>,
}

impl EntryTable {
    /// The stored entries.
    pub closed spec fn view(&self) -> Map<Seq<char>, EntryView> {
        store_view(self.data@)
    }

    /// The key list names exactly the stored keys.
    pub closed spec fn wf(&self) -> bool {
        listed(self.keys@) == self.data@.dom()
    }

    /// An empty table.
    pub fn new() -> (r: Self)
        ensures
            r.wf(),
            r.view() == Map::<Seq<char>, EntryView>::empty(),
    {
        let r = EntryTable { data: StringHashMap::new(), keys: Vec::new() };
        assert(listed(r.keys@) =~= r.data@.dom());
        assert(r.view() =~= Map::<Seq<char>, EntryView>::empty());
        r
    }

    /// The entry stored under `key`, if any.
    pub fn get(&self, key: &str) -> (r: Option<&CacheEntry>)
        ensures
            match r {
                Some(e) => self.view().contains_key(key@) && e.view() == self.view()[key@],
                None => !self.view().contains_key(key@),
            },
    {
        self.data.get(key)
    }

    /// Stores `e` under `key`.
    pub fn insert(&mut self, key: String, e: CacheEntry)
        requires
            old(self).wf(),
        ensures
            final(self).wf(),
            final(self).view() == old(self).view().insert(key@, e.view()),
    {
        let ghost d0 = self.data@.dom();
        if !self.data.contains_key(key.as_str()) {
            let copy = owned(key.as_str());
            proof { lemma_listed_push(self.keys@, copy); }
            self.keys.push(copy);
            assert(listed(self.keys@) == d0.insert(key@));
        } else {
            assert(listed(self.keys@) =~= d0.insert(key@));
        }
        proof { lemma_store_insert(self.data@, key@, e); }
        self.data.insert(key, e);
        assert(self.data@.dom() =~= d0.insert(key@));
    }

    /// Removes the entry under `key`, if any.
    pub fn remove(&mut self, key: &str)
        requires
            old(self).wf(),
        ensures
            final(self).wf(),
            final(self).view() == old(self).view().remove(key@),
    {
        let mut kept: Vec<String> = Vec::new();
        let mut i: usize = 0;
        proof {
            assert(listed(self.keys@.take(0)) =~= Set::<Seq<char>>::empty());
            assert(listed(kept@) =~= Set::<Seq<char>>::empty());
        }
        while i < self.keys.len()
            invariant
                i <= self.keys.len(),
                listed(kept@) == listed(self.keys@.take(i as int)).remove(key@),
            decreases self.keys.len() - i,
        {
            proof { lemma_listed_take(self.keys@, i as int); }
            if !str_eq(self.keys[i].as_str(), key) {
                let copy = owned(self.keys[i].as_str());
                proof { lemma_listed_push(kept@, copy); }
                kept.push(copy);
                assert(listed(kept@) =~= listed(self.keys@.take(i + 1)).remove(key@));
            } else {
                assert(listed(kept@) =~= listed(self.keys@.take(i + 1)).remove(key@));
            }
            i += 1;
        }
        proof {
            assert(self.keys@.take(self.keys.len() as int) =~= self.keys@);
            lemma_store_remove(self.data@, key@);
        }
        self.data.remove(key);
        self.keys = kept;
        assert(listed(self.keys@) =~= self.data@.dom());
    }

    /// Removes every entry whose key starts with `prefix`.
    pub fn remove_prefixed(&mut self, prefix: &str)
        requires
            old(self).wf(),
        ensures
            final(self).wf(),
            final(self).view() == old(self).view().remove_keys(prefixed(prefix@)),
    {
        let ghost v0 = self.view();
        let ghost d0 = self.data@.dom();
        let mut kept: Vec<String> = Vec::new();
        let mut i: usize = 0;
        proof {
            assert(listed(self.keys@.take(0)) =~= Set::<Seq<char>>::empty());
            assert(listed(kept@) =~= Set::<Seq<char>>::empty());
            assert(v0.remove_keys(Set::<Seq<char>>::empty().intersect(prefixed(prefix@))) =~= v0);
        }
        while i < self.keys.len()
            invariant
                i <= self.keys.len(),
                listed(self.keys@) == d0,
                v0 == old(self).view(),
                d0 == old(self).data@.dom(),
                self.view() == v0.remove_keys(listed(self.keys@.take(i as int)).intersect(prefixed(prefix@))),
                listed(kept@) == listed(self.keys@.take(i as int)).difference(prefixed(prefix@)),
            decreases self.keys.len() - i,
        {
            proof { lemma_listed_take(self.keys@, i as int); }
            if str_starts_with(self.keys[i].as_str(), prefix) {
                proof { lemma_store_remove(self.data@, self.keys@[i as int]@); }
                self.data.remove(self.keys[i].as_str());
                assert(self.view() =~= v0.remove_keys(listed(self.keys@.take(i + 1)).intersect(prefixed(prefix@))));
                assert(listed(kept@) =~= listed(self.keys@.take(i + 1)).difference(prefixed(prefix@)));
            } else {
                let copy = owned(self.keys[i].as_str());
                proof { lemma_listed_push(kept@, copy); }
                kept.push(copy);
                assert(self.view() =~= v0.remove_keys(listed(self.keys@.take(i + 1)).intersect(prefixed(prefix@))));
                assert(listed(kept@) =~= listed(self.keys@.take(i + 1)).difference(prefixed(prefix@)));
            }
            i += 1;
        }
        proof {
            assert(self.keys@.take(self.keys.len() as int) =~= self.keys@);
            assert(v0.dom() =~= d0);
            assert(self.view() =~= v0.remove_keys(prefixed(prefix@)));
            assert(self.data@.dom() =~= self.view().dom());
            assert(self.view().dom() =~= d0.difference(prefixed(prefix@)));
            assert(listed(kept@) =~= d0.difference(prefixed(prefix@)));
        }
        self.keys = kept;
        assert(listed(self.keys@) =~= self.data@.dom());
    }
}

/// The shared second-level store (an in-process stand-in for Redis).
pub struct L2Store {
    table: EntryTable,
}

impl L2Store {
    /// The stored entries.
    pub closed spec fn view(&self) -> Map<Seq<char>, EntryView> {
        self.table.view()
    }

    /// The store is well formed.
    pub closed spec fn wf(&self) -> bool {
        self.table.wf()
    }

    /// An empty store.
    pub fn new() -> (r: Self)
        ensures
            r.wf(),
            r.view() == Map::<Seq<char>, EntryView>::empty(),
    {
        L2Store { table: EntryTable::new() }
    }

    /// The data stored for `key` while it is fresh at `now_ms`.
    pub fn get(&self, key: &str, now_ms: u64) -> (r: Option<Vec<u8>>)
        ensures
            match r {
                Some(d) => self.view().contains_key(key@) && fresh(self.view()[key@], now_ms)
                    && d@ == self.view()[key@].0,
                None => !(self.view().contains_key(key@) && fresh(self.view()[key@], now_ms)),
            },
    {
        match self.table.get(key) {
            Some(e) => {
                if is_fresh(e, now_ms) {
                    Some(copy_bytes(&e.data))
                } else {
                    None
                }
            },
            None => None,
        }
    }

    /// Stores `data` under `key`, fresh for `ttl_secs` from `now_ms`.
    pub fn put(&mut self, key: &str, data: Vec<u8>, ttl_secs: u64, now_ms: u64)
        requires
            old(self).wf(),
        ensures
            final(self).wf(),
            final(self).view() == old(self).view().insert(key@, stored(data@, now_ms, ttl_secs, CacheLayer::L2Redis)),
    {
        let e = CacheEntry { data, created_ms: now_ms, ttl_secs, layer: CacheLayer::L2Redis };
        self.table.insert(owned(key), e);
    }

    /// Removes the entry for `key`.
    pub fn evict(&mut self, key: &str)
        requires
            old(self).wf(),
        ensures
            final(self).wf(),
            final(self).view() == old(self).view().remove(key@),
    {
        self.table.remove(key);
    }

    /// Removes every entry whose key starts with `prefix`.
    pub fn evict_prefixed(&mut self, prefix: &str)
        requires
            old(self).wf(),
        ensures
            final(self).wf(),
            final(self).view() == old(self).view().remove_keys(prefixed(prefix@)),
    {
        self.table.remove_prefixed(prefix);
    }
}

/// Key under which the CDN layer stores `key`.
pub open spec fn cdn_key(prefix: Seq<char>, key: Seq<char>) -> Seq<char> {
    prefix + "/"@ + key
}

/// The CDN edge layer (an in-process stand-in for the CDN API).
pub struct L3Store {
    prefix: String,
    table: EntryTable,
}

impl L3Store {
    /// The stored entries, by CDN key.
    pub closed spec fn view(&self) -> Map<Seq<char>, EntryView> {
        self.table.view()
    }

    /// The CDN key prefix.
    pub closed spec fn prefix(&self) -> Seq<char> {
        self.prefix@
    }

    /// The layer is well formed.
    pub closed spec fn wf(&self) -> bool {
        self.table.wf()
    }

    /// An empty CDN layer with the given key prefix.
    pub fn new(prefix: &str) -> (r: Self)
        ensures
            r.wf(),
            r.view() == Map::<Seq<char>, EntryView>::empty(),
            r.prefix() == prefix@,
    {
        L3Store { prefix: owned(prefix), table: EntryTable::new() }
    }

    /// The data stored for `key` while it is fresh at `now_ms`.
    pub fn get(&self, key: &str, now_ms: u64) -> (r: Option<Vec<u8>>)
        ensures
            match r {
                Some(d) => self.view().contains_key(cdn_key(self.prefix(), key@))
                    && fresh(self.view()[cdn_key(self.prefix(), key@)], now_ms)
                    && d@ == self.view()[cdn_key(self.prefix(), key@)].0,
                None => !(self.view().contains_key(cdn_key(self.prefix(), key@))
                    && fresh(self.view()[cdn_key(self.prefix(), key@)], now_ms)),
            },
    {
        let k = concat3(self.prefix.as_str(), "/", key);
        match self.table.get(k.as_str()) {
            Some(e) => {
                if is_fresh(e, now_ms) {
                    Some(copy_bytes(&e.data))
                } else {
                    None
                }
            },
            None => None,
        }
    }

    /// Stores `data` under `key`, fresh for `ttl_secs` from `now_ms`.
    pub fn put(&mut self, key: &str, data: Vec<u8>, ttl_secs: u64, now_ms: u64)
        requires
            old(self).wf(),
        ensures
            final(self).wf(),
            final(self).prefix() == old(self).prefix(),
            final(self).view() == old(self).view().insert(cdn_key(old(self).prefix(), key@),
                stored(data@, now_ms, ttl_secs, CacheLayer::L3Cdn)),
    {
        let k = concat3(self.prefix.as_str(), "/", key);
        let e = CacheEntry { data, created_ms: now_ms, ttl_secs, layer: CacheLayer::L3Cdn };
        self.table.insert(k, e);
    }

    /// Removes the entry for `key`.
    pub fn evict(&mut self, key: &str)
        requires
            old(self).wf(),
        ensures
            final(self).wf(),
            final(self).prefix() == old(self).prefix(),
            final(self).view() == old(self).view().remove(cdn_key(old(self).prefix(), key@)),
    {
        let k = concat3(self.prefix.as_str(), "/", key);
        self.table.remove(k.as_str());
    }

    /// Removes the entry of every key that starts with `prefix`: every CDN key
    /// that starts with the CDN key of `prefix`.
    pub fn evict_prefixed(&mut self, prefix: &str)
        requires
            old(self).wf(),
        ensures
            final(self).wf(),
            final(self).prefix() == old(self).prefix(),
            final(self).view() == old(self).view().remove_keys(prefixed(cdn_key(old(self).prefix(), prefix@))),
    {
        let k = concat3(self.prefix.as_str(), "/", prefix);
        self.table.remove_prefixed(k.as_str());
    }
}

} // verus!

verus! {

/// `std::time::Instant`, carried through as an opaque value.
#[verifier::external_type_specification]
#[verifier::external_body]
pub struct ExInstant(std::time::Instant);

/// `Instant::now`: the current reading of the monotonic clock.
#[verifier::external_body]
fn clock_now() -> (r: std::time::Instant) {
    std::time::Instant::now()
}

/// Milliseconds elapsed on the monotonic clock since `origin`
/// (`Instant::elapsed`). Nothing is stated of the value: it is a clock reading.
#[verifier::external_body]
fn millis_since(origin: &std::time::Instant) -> (r: u64) {
    origin.elapsed().as_millis() as u64
}

/// The plain contents of a lookup result.
pub open spec fn resp_view(r: Option<(Vec<u8>, CacheLayer)>) -> Option<(Seq<u8>, CacheLayer)> {
    match r {
        Some(p) => Some((p.0@, p.1)),
        None => None,
    }
}

/// Multi-tier Horizon query cache.
pub struct HorizonCache {
    l1: L1Lru,
    l2: L2Store,
    l3: L3Store,
    config: HorizonCacheConfig,
    stats: CacheStats,
    origin: std::time::Instant,
}

/// Statistics with one field changed.
pub open spec fn bump_l1_hits(s: CacheStats) -> CacheStats { CacheStats { l1_hits: (s.l1_hits + 1) as u64, ..s } }
/// The statistics with one more first-layer miss.
pub open spec fn bump_l1_misses(s: CacheStats) -> CacheStats { CacheStats { l1_misses: (s.l1_misses + 1) as u64, ..s } }
/// The statistics with one more second-layer hit.
pub open spec fn bump_l2_hits(s: CacheStats) -> CacheStats { CacheStats { l2_hits: (s.l2_hits + 1) as u64, ..s } }
/// The statistics with one more second-layer miss.
pub open spec fn bump_l2_misses(s: CacheStats) -> CacheStats { CacheStats { l2_misses: (s.l2_misses + 1) as u64, ..s } }
/// The statistics with one more third-layer hit.
pub open spec fn bump_l3_hits(s: CacheStats) -> CacheStats { CacheStats { l3_hits: (s.l3_hits + 1) as u64, ..s } }
/// The statistics with one more third-layer miss.
pub open spec fn bump_l3_misses(s: CacheStats) -> CacheStats { CacheStats { l3_misses: (s.l3_misses + 1) as u64, ..s } }

impl HorizonCache {
    /// The L1 entries, most recently used first.
    pub closed spec fn l1(&self) -> Seq<(Seq<char>, EntryView)> { lru_entries(self.l1) }
    /// The L1 capacity.
    pub closed spec fn l1_cap(&self) -> nat { lru_capacity(self.l1) }
    /// The L2 entries.
    pub closed spec fn l2(&self) -> Map<Seq<char>, EntryView> { self.l2.view() }
    /// The L3 entries, by CDN key.
    pub closed spec fn l3(&self) -> Map<Seq<char>, EntryView> { self.l3.view() }
    /// The statistics.
    pub closed spec fn stats_view(&self) -> CacheStats { self.stats }
    /// The configuration.
    pub closed spec fn config_view(&self) -> HorizonCacheConfig { self.config }
    /// The CDN key prefix.
    pub closed spec fn cdn_prefix(&self) -> Seq<char> { self.l3.prefix() }

    /// The cache is well formed.
    pub closed spec fn wf(&self) -> bool {
        &&& lru_wf(self.l1)
        &&& lru_capacity(self.l1) == if self.config.l1_capacity > 0 { self.config.l1_capacity as nat } else { 1 }
        &&& self.l3.prefix() == self.config.l3_cdn_prefix@
        &&& self.l2.wf()
        &&& self.l3.wf()
    }

    /// A new, empty cache. The L1 holds `l1_capacity` entries (at least one).
    pub fn new(config: HorizonCacheConfig) -> (r: Self)
        ensures
            r.wf(),
            r.config_view() == config,
            r.l1_cap() == if config.l1_capacity > 0 { config.l1_capacity as nat } else { 1 },
            r.cdn_prefix() == config.l3_cdn_prefix@,
            r.l1() == Seq::<(Seq<char>, EntryView)>::empty(),
            r.l2() == Map::<Seq<char>, EntryView>::empty(),
            r.l3() == Map::<Seq<char>, EntryView>::empty(),
            r.stats_view() == (CacheStats { l1_hits: 0, l1_misses: 0, l2_hits: 0, l2_misses: 0, l3_hits: 0, l3_misses: 0, total_puts: 0, total_evictions: 0 }),
    {
        let cap = if config.l1_capacity > 0 { config.l1_capacity } else { 1 };
        let l3 = L3Store::new(config.l3_cdn_prefix.as_str());
        HorizonCache {
            l1: lru_new(cap),
            l2: L2Store::new(),
            l3,
            config,
            stats: CacheStats::default(),
            origin: clock_now(),
        }
    }

    /// A lookup at `now_ms` that hits L1.
    pub open spec fn l1_hit(&self, key: Seq<char>, now_ms: u64) -> bool {
        lru_find(self.l1(), key) matches Some(i) && fresh(self.l1()[i].1, now_ms)
    }

    /// The L1 order after looking `key` up (a present key becomes most recent).
    pub open spec fn l1_after_lookup(&self, key: Seq<char>) -> Seq<(Seq<char>, EntryView)> {
        match lru_find(self.l1(), key) {
            Some(i) => lru_touch(self.l1(), i),
            None => self.l1(),
        }
    }

    /// A lookup at `now_ms` that finds `key` fresh in L2.
    pub open spec fn l2_hit(&self, key: Seq<char>, now_ms: u64) -> bool {
        self.config_view().l2_redis_enabled && self.l2().contains_key(key) && fresh(self.l2()[key], now_ms)
    }

    /// A lookup at `now_ms` that finds `key` fresh in L3.
    pub open spec fn l3_hit(&self, key: Seq<char>, now_ms: u64) -> bool {
        self.config_view().l3_cdn_enabled && self.l3().contains_key(cdn_key(self.cdn_prefix(), key))
            && fresh(self.l3()[cdn_key(self.cdn_prefix(), key)], now_ms)
    }

    /// What a lookup of `key` at `now_ms` returns and leaves behind: L1 is
    /// tried first, then L2, then L3; a lower-layer hit is promoted into L1
    /// (and an L3 hit into L2 as well when it is enabled); each layer's hit
    /// or miss is counted.
    pub open spec fn get_post(old: HorizonCache, new: HorizonCache, key: Seq<char>, now_ms: u64,
        r: Option<(Seq<u8>, CacheLayer)>) -> bool {
        let cfg = old.config_view();
        let mid = old.l1_after_lookup(key);
        &&& new.wf()
        &&& new.config_view() == cfg
        &&& new.l1_cap() == old.l1_cap()
        &&& new.cdn_prefix() == old.cdn_prefix()
        &&& new.l3() == old.l3()
        &&& if old.l1_hit(key, now_ms) {
            let i = lru_find(old.l1(), key)->0;
            &&& r == Some((old.l1()[i].1.0, CacheLayer::L1Memory))
            &&& new.l1() == mid
            &&& new.l2() == old.l2()
            &&& new.stats_view() == bump_l1_hits(old.stats_view())
        } else if old.l2_hit(key, now_ms) {
            let d = old.l2()[key].0;
            &&& r == Some((d, CacheLayer::L2Redis))
            &&& new.l1() == lru_put(mid, old.l1_cap(), key, stored(d, now_ms, cfg.l1_ttl_secs, CacheLayer::L1Memory))
            &&& new.l2() == old.l2()
            &&& new.stats_view() == bump_l2_hits(bump_l1_misses(old.stats_view()))
        } else if old.l3_hit(key, now_ms) {
            let d = old.l3()[cdn_key(old.cdn_prefix(), key)].0;
            &&& r == Some((d, CacheLayer::L3Cdn))
            &&& new.l1() == lru_put(mid, old.l1_cap(), key, stored(d, now_ms, cfg.l1_ttl_secs, CacheLayer::L1Memory))
            &&& new.l2() == if cfg.l2_redis_enabled {
                old.l2().insert(key, stored(d, now_ms, cfg.l2_ttl_secs, CacheLayer::L2Redis))
            } else {
                old.l2()
            }
            &&& new.stats_view() == bump_l3_hits(
                if cfg.l2_redis_enabled { bump_l2_misses(bump_l1_misses(old.stats_view())) } else { bump_l1_misses(old.stats_view()) })
        } else {
            &&& r is None
            &&& new.l1() == mid
            &&& new.l2() == old.l2()
            &&& new.stats_view() == {
                let s1 = bump_l1_misses(old.stats_view());
                let s2 = if cfg.l2_redis_enabled { bump_l2_misses(s1) } else { s1 };
                if cfg.l3_cdn_enabled { bump_l3_misses(s2) } else { s2 }
            }
        }
    }

    fn put_l1(&mut self, key: &str, data: Vec<u8>, now_ms: u64)
        requires
            old(self).wf(),
        ensures
            final(self).wf(),
            final(self).config_view() == old(self).config_view(),
            final(self).l1_cap() == old(self).l1_cap(),
            final(self).cdn_prefix() == old(self).cdn_prefix(),
            final(self).l1() == lru_put(old(self).l1(), old(self).l1_cap(), key@,
                stored(data@, now_ms, old(self).config_view().l1_ttl_secs, CacheLayer::L1Memory)),
            final(self).l2() == old(self).l2(),
            final(self).l3() == old(self).l3(),
            final(self).stats_view() == old(self).stats_view(),
    {
        let e = CacheEntry { data, created_ms: now_ms, ttl_secs: self.config.l1_ttl_secs, layer: CacheLayer::L1Memory };
        proof { lemma_lru_put_wf(lru_entries(self.l1), lru_capacity(self.l1), key@, e.view()); }
        lru_put_entry(&mut self.l1, owned(key), e);
    }

    /// Looks `key` up at clock reading `now_ms`: L1, then L2, then L3.
    pub fn get_at(&mut self, key: &str, now_ms: u64) -> (r: Option<(Vec<u8>, CacheLayer)>)
        requires
            old(self).wf(),
            old(self).stats_view().has_room(),
        ensures
            HorizonCache::get_post(*old(self), *final(self), key@, now_ms,
                resp_view(r)),
    {
        proof {
            match lru_find(lru_entries(self.l1), key@) {
                Some(i) => { lemma_lru_touch_wf(lru_entries(self.l1), i); },
                None => {},
            }
        }
        let found = lru_get(&mut self.l1, key);
        if let Some(entry) = found {
            if is_fresh(&entry, now_ms) {
                self.stats.l1_hits = self.stats.l1_hits + 1;
                return Some((entry.data, CacheLayer::L1Memory));
            }
        }
        self.stats.l1_misses = self.stats.l1_misses + 1;

        if self.config.l2_redis_enabled {
            if let Some(data) = self.l2.get(key, now_ms) {
                self.stats.l2_hits = self.stats.l2_hits + 1;
                let copy = copy_bytes(&data);
                self.put_l1(key, copy, now_ms);
                return Some((data, CacheLayer::L2Redis));
            }
            self.stats.l2_misses = self.stats.l2_misses + 1;
        }

        if self.config.l3_cdn_enabled {
            if let Some(data) = self.l3.get(key, now_ms) {
                self.stats.l3_hits = self.stats.l3_hits + 1;
                let copy = copy_bytes(&data);
                self.put_l1(key, copy, now_ms);
                if self.config.l2_redis_enabled {
                    let copy2 = copy_bytes(&data);
                    let ttl = self.config.l2_ttl_secs;
                    self.l2.put(key, copy2, ttl, now_ms);
                }
                return Some((data, CacheLayer::L3Cdn));
            }
            self.stats.l3_misses = self.stats.l3_misses + 1;
        }
        None
    }

    /// Looks `key` up now: L1, then L2, then L3, promoting lower-layer hits.
    pub fn get(&mut self, key: &str) -> (r: Option<(Vec<u8>, CacheLayer)>)
        requires
            old(self).wf(),
            old(self).stats_view().has_room(),
        ensures
            exists|now_ms: u64| #[trigger] HorizonCache::get_post(*old(self), *final(self), key@, now_ms,
                resp_view(r)),
    {
        let now_ms = millis_since(&self.origin);
        self.get_at(key, now_ms)
    }
}

} // verus!

verus! {

/// `s` begins with `p`.
pub open spec fn has_prefix(s: Seq<char>, p: Seq<char>) -> bool {
    starts_with_seq(s, p)
}

impl HorizonCache {
    /// What storing `data` under `key` at `now_ms` leaves behind: the entry
    /// goes into L1 and into every enabled lower layer, and the put is counted.
    pub open spec fn put_post(old: HorizonCache, new: HorizonCache, key: Seq<char>, data: Seq<u8>, now_ms: u64) -> bool {
        let cfg = old.config_view();
        &&& new.wf()
        &&& new.config_view() == cfg
        &&& new.l1_cap() == old.l1_cap()
        &&& new.cdn_prefix() == old.cdn_prefix()
        &&& new.l1() == lru_put(old.l1(), old.l1_cap(), key, stored(data, now_ms, cfg.l1_ttl_secs, CacheLayer::L1Memory))
        &&& new.l2() == if cfg.l2_redis_enabled {
            old.l2().insert(key, stored(data, now_ms, cfg.l2_ttl_secs, CacheLayer::L2Redis))
        } else {
            old.l2()
        }
        &&& new.l3() == if cfg.l3_cdn_enabled {
            old.l3().insert(cdn_key(old.cdn_prefix(), key), stored(data, now_ms, cfg.l3_ttl_secs, CacheLayer::L3Cdn))
        } else {
            old.l3()
        }
        &&& new.stats_view() == (CacheStats { total_puts: (old.stats_view().total_puts + 1) as u64, ..old.stats_view() })
    }

    /// Stores `data` under `key` in every enabled layer at clock reading `now_ms`.
    pub fn put_at(&mut self, key: &str, data: Vec<u8>, now_ms: u64)
        requires
            old(self).wf(),
            old(self).stats_view().total_puts < u64::MAX,
        ensures
            HorizonCache::put_post(*old(self), *final(self), key@, data@, now_ms),
    {
        let c1 = copy_bytes(&data);
        self.put_l1(key, c1, now_ms);
        if self.config.l2_redis_enabled {
            let c2 = copy_bytes(&data);
            let ttl = self.config.l2_ttl_secs;
            self.l2.put(key, c2, ttl, now_ms);
        }
        if self.config.l3_cdn_enabled {
            let ttl = self.config.l3_ttl_secs;
            self.l3.put(key, data, ttl, now_ms);
        }
        self.stats.total_puts = self.stats.total_puts + 1;
    }

    /// Stores `data` under `key` in every enabled layer, now.
    pub fn put(&mut self, key: &str, data: Vec<u8>)
        requires
            old(self).wf(),
            old(self).stats_view().total_puts < u64::MAX,
        ensures
            exists|now_ms: u64| #[trigger] HorizonCache::put_post(*old(self), *final(self), key@, data@, now_ms),
    {
        let now_ms = millis_since(&self.origin);
        self.put_at(key, data, now_ms);
    }

    /// Removes `key` from every enabled layer.
    pub fn evict(&mut self, key: &str)
        requires
            old(self).wf(),
            old(self).stats_view().total_evictions < u64::MAX,
        ensures
            final(self).wf(),
            final(self).config_view() == old(self).config_view(),
            final(self).l1_cap() == old(self).l1_cap(),
            final(self).cdn_prefix() == old(self).cdn_prefix(),
            final(self).l1() == lru_pop(old(self).l1(), key@),
            final(self).l2() == if old(self).config_view().l2_redis_enabled { old(self).l2().remove(key@) } else { old(self).l2() },
            final(self).l3() == if old(self).config_view().l3_cdn_enabled {
                old(self).l3().remove(cdn_key(old(self).cdn_prefix(), key@))
            } else {
                old(self).l3()
            },
            final(self).stats_view() == (CacheStats { total_evictions: (old(self).stats_view().total_evictions + 1) as u64, ..old(self).stats_view() }),
    {
        proof { lemma_lru_pop_wf(lru_entries(self.l1), key@); }
        lru_pop_entry(&mut self.l1, key);
        if self.config.l2_redis_enabled {
            self.l2.evict(key);
        }
        if self.config.l3_cdn_enabled {
            self.l3.evict(key);
        }
        self.stats.total_evictions = self.stats.total_evictions + 1;
    }

    /// The current statistics.
    pub fn stats(&self) -> (r: CacheStats)
        ensures
            r == self.stats_view(),
    {
        self.stats
    }

    /// The configuration.
    pub fn config(&self) -> (r: &HorizonCacheConfig)
        ensures
            *r == self.config_view(),
    {
        &self.config
    }
}

} // verus!

verus! {

/// `s` without the entries whose key is in `ks`, order kept.
pub open spec fn drop_keys(s: Seq<(Seq<char>, EntryView)>, ks: Set<Seq<char>>) -> Seq<(Seq<char>, EntryView)>
    decreases s.len(),
{
    if s.len() == 0 {
        s
    } else if ks.contains(s.last().0) {
        drop_keys(s.drop_last(), ks)
    } else {
        drop_keys(s.drop_last(), ks).push(s.last())
    }
}

/// The keys of `s` that start with `p`, in order.
pub open spec fn keys_with_prefix(s: Seq<(Seq<char>, EntryView)>, p: Seq<char>) -> Seq<Seq<char>>
    decreases s.len(),
{
    if s.len() == 0 {
        Seq::empty()
    } else if has_prefix(s.last().0, p) {
        keys_with_prefix(s.drop_last(), p).push(s.last().0)
    } else {
        keys_with_prefix(s.drop_last(), p)
    }
}

/// The keys with a prefix are no more than the entries.
pub proof fn lemma_keys_with_prefix_len(s: Seq<(Seq<char>, EntryView)>, p: Seq<char>)
    ensures
        keys_with_prefix(s, p).len() <= s.len(),
    decreases s.len(),
{
    if s.len() > 0 {
        lemma_keys_with_prefix_len(s.drop_last(), p);
    }
}

/// Some entry of `s` has the key `k`.
pub open spec fn has_key(s: Seq<(Seq<char>, EntryView)>, k: Seq<char>) -> bool {
    exists|j: int| 0 <= j < s.len() && s[j].0 == k
}

/// Dropping keys leaves only entries that were there.
pub proof fn lemma_drop_keys_subset(s: Seq<(Seq<char>, EntryView)>, ks: Set<Seq<char>>)
    ensures
        forall|j: int| 0 <= j < drop_keys(s, ks).len() ==> has_key(s, #[trigger] drop_keys(s, ks)[j].0)
            && !ks.contains(drop_keys(s, ks)[j].0),
        keys_unique(s) ==> keys_unique(drop_keys(s, ks)),
        drop_keys(s, ks).len() <= s.len(),
    decreases s.len(),
{
    if s.len() > 0 {
        let s2 = s.drop_last();
        lemma_drop_keys_subset(s2, ks);
        let d2 = drop_keys(s2, ks);
        assert forall|j: int| 0 <= j < d2.len() implies has_key(s, #[trigger] d2[j].0) by {
            let w = choose|w: int| 0 <= w < s2.len() && s2[w].0 == d2[j].0;
            assert(s[w] == s2[w]);
        }
        if !ks.contains(s.last().0) {
            let d = d2.push(s.last());
            assert(s[s.len() - 1] == s.last());
            if keys_unique(s) {
                assert forall|j: int| 0 <= j < d2.len() implies #[trigger] d2[j].0 != s.last().0 by {
                    let w = choose|w: int| 0 <= w < s2.len() && s2[w].0 == d2[j].0;
                    assert(s[w] == s2[w]);
                }
                assert(keys_unique(s2)) by {
                    assert forall|a: int, b: int| 0 <= a < s2.len() && 0 <= b < s2.len() && a != b implies s2[a].0 != s2[b].0 by {
                        assert(s[a] == s2[a] && s[b] == s2[b]);
                    }
                }
            }
        } else {
            if keys_unique(s) {
                assert(keys_unique(s2)) by {
                    assert forall|a: int, b: int| 0 <= a < s2.len() && 0 <= b < s2.len() && a != b implies s2[a].0 != s2[b].0 by {
                        assert(s[a] == s2[a] && s[b] == s2[b]);
                    }
                }
            }
        }
    }
}

proof fn lemma_drop_absent_key(s: Seq<(Seq<char>, EntryView)>, ks: Set<Seq<char>>, k: Seq<char>)
    requires
        !has_key(s, k),
    ensures
        drop_keys(s, ks.insert(k)) == drop_keys(s, ks),
    decreases s.len(),
{
    if s.len() > 0 {
        let s2 = s.drop_last();
        assert(s[s.len() - 1] == s.last());
        assert(!has_key(s2, k)) by {
            if has_key(s2, k) {
                let w = choose|w: int| 0 <= w < s2.len() && s2[w].0 == k;
                assert(s[w] == s2[w]);
            }
        }
        lemma_drop_absent_key(s2, ks, k);
    }
}

proof fn lemma_pop_drop_keys(s: Seq<(Seq<char>, EntryView)>, ks: Set<Seq<char>>, k: Seq<char>)
    requires
        keys_unique(s),
        !ks.contains(k),
        has_key(s, k),
    ensures
        lru_pop(drop_keys(s, ks), k) == drop_keys(s, ks.insert(k)),
    decreases s.len(),
{
    let s2 = s.drop_last();
    let last = s.last();
    assert(s[s.len() - 1] == last);
    assert(keys_unique(s2)) by {
        assert forall|a: int, b: int| 0 <= a < s2.len() && 0 <= b < s2.len() && a != b implies s2[a].0 != s2[b].0 by {
            assert(s[a] == s2[a] && s[b] == s2[b]);
        }
    }
    lemma_drop_keys_subset(s2, ks);
    lemma_drop_keys_subset(s, ks);
    let d2 = drop_keys(s2, ks);
    if last.0 == k {
        assert(!has_key(s2, k)) by {
            if has_key(s2, k) {
                let w = choose|w: int| 0 <= w < s2.len() && s2[w].0 == k;
                assert(s[w] == s2[w]);
            }
        }
        let t = d2.push(last);
        assert(drop_keys(s, ks) == t);
        assert(t[d2.len() as int].0 == k);
        lemma_lru_find_some(t, d2.len() as int);
        assert(t.remove(d2.len() as int) =~= d2);
        lemma_drop_absent_key(s2, ks, k);
        assert(ks.insert(k).contains(last.0));
    } else {
        assert(has_key(s2, k)) by {
            let w = choose|w: int| 0 <= w < s.len() && s[w].0 == k;
            assert(w != s.len() - 1);
            assert(s2[w] == s[w]);
        }
        lemma_pop_drop_keys(s2, ks, k);
        if ks.contains(last.0) {
            assert(ks.insert(k).contains(last.0));
        } else {
            assert(!ks.insert(k).contains(last.0));
            let t = d2.push(last);
            assert(drop_keys(s, ks) == t);
            // k sits inside d2
            let p2 = lru_pop(d2, k);
            match lru_find(d2, k) {
                Some(j) => {
                    assert(t[j] == d2[j]);
                    lemma_lru_find_some(t, j);
                    assert(t.remove(j) =~= d2.remove(j).push(last));
                },
                None => {
                    // k is in s2 and not in ks, so it survives in d2
                    let w = choose|w: int| 0 <= w < s2.len() && s2[w].0 == k;
                    lemma_drop_keys_keeps(s2, ks, w);
                    assert(false);
                },
            }
        }
    }
}

/// Dropping keys keeps every entry whose key is not dropped.
pub proof fn lemma_drop_keys_keeps(s: Seq<(Seq<char>, EntryView)>, ks: Set<Seq<char>>, w: int)
    requires
        0 <= w < s.len(),
        !ks.contains(s[w].0),
    ensures
        has_key(drop_keys(s, ks), s[w].0),
    decreases s.len(),
{
    let s2 = s.drop_last();
    let d = drop_keys(s, ks);
    if w == s.len() - 1 {
        assert(d[d.len() - 1] == s.last());
    } else {
        assert(s2[w] == s[w]);
        lemma_drop_keys_keeps(s2, ks, w);
        let d2 = drop_keys(s2, ks);
        let j = choose|j: int| 0 <= j < d2.len() && d2[j].0 == s[w].0;
        if !ks.contains(s.last().0) {
            assert(d[j] == d2[j]);
        }
    }
}

} // verus!

verus! {

/// The CDN keys of `ks`.
pub open spec fn cdn_keys(prefix: Seq<char>, ks: Seq<Seq<char>>) -> Set<Seq<char>> {
    ks.map_values(|k: Seq<char>| cdn_key(prefix, k)).to_set()
}

proof fn lemma_keys_with_prefix_step(s: Seq<(Seq<char>, EntryView)>, p: Seq<char>, i: int)
    requires
        0 <= i < s.len(),
    ensures
        keys_with_prefix(s.take(i + 1), p) == if has_prefix(s[i].0, p) {
            keys_with_prefix(s.take(i), p).push(s[i].0)
        } else {
            keys_with_prefix(s.take(i), p)
        },
{
    assert(s.take(i + 1).drop_last() =~= s.take(i));
    assert(s.take(i + 1).last() == s[i]);
}

proof fn lemma_keys_with_prefix_from(s: Seq<(Seq<char>, EntryView)>, p: Seq<char>)
    ensures
        forall|j: int| 0 <= j < keys_with_prefix(s, p).len() ==>
            exists|w: int| 0 <= w < s.len() && s[w].0 == #[trigger] keys_with_prefix(s, p)[j],
    decreases s.len(),
{
    if s.len() > 0 {
        let s2 = s.drop_last();
        lemma_keys_with_prefix_from(s2, p);
        let k2 = keys_with_prefix(s2, p);
        assert forall|j: int| 0 <= j < k2.len() implies exists|w: int| 0 <= w < s.len() && s[w].0 == #[trigger] k2[j] by {
            let w = choose|w: int| 0 <= w < s2.len() && s2[w].0 == k2[j];
            assert(s[w] == s2[w]);
        }
        assert(s[s.len() - 1] == s.last());
    }
}

/// Every key of `s` listed as starting with `p` does start with it.
proof fn lemma_keys_with_prefix_prefixed(s: Seq<(Seq<char>, EntryView)>, p: Seq<char>)
    ensures
        keys_with_prefix(s, p).to_set().subset_of(prefixed(p)),
    decreases s.len(),
{
    if s.len() > 0 {
        lemma_keys_with_prefix_prefixed(s.drop_last(), p);
        let k2 = keys_with_prefix(s.drop_last(), p);
        if has_prefix(s.last().0, p) {
            k2.lemma_push_to_set_commute(s.last().0);
        }
    }
}

/// A key starts with `p` exactly when its CDN key starts with the CDN key of `p`.
pub proof fn lemma_cdn_key_prefix(pfx: Seq<char>, k: Seq<char>, p: Seq<char>)
    ensures
        has_prefix(k, p) <==> has_prefix(cdn_key(pfx, k), cdn_key(pfx, p)),
{
    let ck = cdn_key(pfx, k);
    let cp = cdn_key(pfx, p);
    reveal_strlit("/");
    let n: int = pfx.len() as int + 1;
    if has_prefix(k, p) {
        assert(ck.subrange(0, cp.len() as int) =~= cp);
    }
    assert(cp.len() == n + p.len());
    assert(ck.len() == n + k.len());
    if has_prefix(ck, cp) {
        assert forall|i: int| 0 <= i < p.len() implies k[i] == p[i] by {
            assert(ck[n + i] == k[i]);
            assert(cp[n + i] == p[i]);
            assert(ck.subrange(0, cp.len() as int)[n + i] == ck[n + i]);
        }
        assert(k.subrange(0, p.len() as int) =~= p);
    }
}

impl HorizonCache {
    /// What evicting by the prefix `p` leaves behind: L1 loses each of its
    /// entries whose key starts with `p` (the others keep their order); each
    /// enabled lower layer loses every entry whose key starts with `p` (L3 by
    /// CDN key), whether L1 still held the key or not; one eviction is counted
    /// per key taken from L1.
    pub open spec fn evict_by_prefix_post(old: HorizonCache, new: HorizonCache, p: Seq<char>) -> bool {
        let cfg = old.config_view();
        let ks = keys_with_prefix(old.l1(), p);
        &&& new.wf()
        &&& new.config_view() == cfg
        &&& new.l1_cap() == old.l1_cap()
        &&& new.cdn_prefix() == old.cdn_prefix()
        &&& new.l1() == drop_keys(old.l1(), ks.to_set())
        &&& new.l2() == if cfg.l2_redis_enabled { old.l2().remove_keys(prefixed(p)) } else { old.l2() }
        &&& new.l3() == if cfg.l3_cdn_enabled {
            old.l3().remove_keys(prefixed(cdn_key(old.cdn_prefix(), p)))
        } else {
            old.l3()
        }
        &&& new.stats_view() == (CacheStats {
            total_evictions: (old.stats_view().total_evictions + ks.len()) as u64,
            ..old.stats_view()
        })
        &&& forall|j: int| 0 <= j < new.l1().len() ==> !has_prefix(#[trigger] new.l1()[j].0, p)
    }

    /// Evicts every key that starts with `prefix` (a ledger sequence prefix)
    /// from every enabled layer.
    pub fn evict_by_prefix(&mut self, prefix: &str)
        requires
            old(self).wf(),
            old(self).stats_view().total_evictions + old(self).l1().len() <= u64::MAX,
        ensures
            HorizonCache::evict_by_prefix_post(*old(self), *final(self), prefix@),
    {
        let ghost s0 = self.l1();
        let ghost l2_0 = self.l2();
        let ghost l3_0 = self.l3();
        let ghost st0 = self.stats_view();
        let ghost pfx = self.cdn_prefix();
        let keys = lru_keys(&self.l1);
        proof {
            assert(keys@.len() == s0.len()) by {
                assert(keys@.map_values(|k: String| k@).len() == s0.map_values(|p: (Seq<char>, EntryView)| p.0).len());
            }
            assert(s0.take(0) =~= Seq::<(Seq<char>, EntryView)>::empty());
            assert(keys_with_prefix(s0.take(0), prefix@).to_set() =~= Set::<Seq<char>>::empty());
            assert(drop_keys(s0, Set::<Seq<char>>::empty()) == s0) by { lemma_drop_none(s0); }
            assert(l2_0.remove_keys(Set::<Seq<char>>::empty()) =~= l2_0);
            assert(cdn_keys(pfx, keys_with_prefix(s0.take(0), prefix@)) =~= Set::<Seq<char>>::empty());
            assert(l3_0.remove_keys(Set::<Seq<char>>::empty()) =~= l3_0);
        }
        let mut i: usize = 0;
        while i < keys.len()
            invariant
                i <= keys.len(),
                keys@.len() == s0.len(),
                keys@.map_values(|k: String| k@) == s0.map_values(|p: (Seq<char>, EntryView)| p.0),
                keys_unique(s0),
                self.wf(),
                self.config_view() == old(self).config_view(),
                self.l1_cap() == old(self).l1_cap(),
                self.cdn_prefix() == pfx,
                pfx == old(self).cdn_prefix(),
                s0 == old(self).l1(),
                l2_0 == old(self).l2(),
                l3_0 == old(self).l3(),
                st0 == old(self).stats_view(),
                st0.total_evictions + s0.len() <= u64::MAX,
                keys_with_prefix(s0.take(i as int), prefix@).len() <= i,
                self.l1() == drop_keys(s0, keys_with_prefix(s0.take(i as int), prefix@).to_set()),
                self.l2() == if self.config_view().l2_redis_enabled {
                    l2_0.remove_keys(keys_with_prefix(s0.take(i as int), prefix@).to_set())
                } else {
                    l2_0
                },
                self.l3() == if self.config_view().l3_cdn_enabled {
                    l3_0.remove_keys(cdn_keys(pfx, keys_with_prefix(s0.take(i as int), prefix@)))
                } else {
                    l3_0
                },
                self.stats_view() == (CacheStats {
                    total_evictions: (st0.total_evictions + keys_with_prefix(s0.take(i as int), prefix@).len()) as u64,
                    ..st0
                }),
            decreases keys.len() - i,
        {
            let ghost ki = keys_with_prefix(s0.take(i as int), prefix@);
            let ghost k = s0[i as int].0;
            proof {
                assert(keys@[i as int]@ == keys@.map_values(|k: String| k@)[i as int]);
                assert(keys@[i as int]@ == k);
                lemma_keys_with_prefix_step(s0, prefix@, i as int);
            }
            if str_starts_with(keys[i].as_str(), prefix) {
                proof {
                    lemma_keys_with_prefix_from(s0.take(i as int), prefix@);
                    assert(!ki.to_set().contains(k)) by {
                        if ki.to_set().contains(k) {
                            let j = choose|j: int| 0 <= j < ki.len() && ki[j] == k;
                            let w = choose|w: int| 0 <= w < s0.take(i as int).len() && s0.take(i as int)[w].0 == #[trigger] ki[j];
                            assert(s0[w] == s0.take(i as int)[w]);
                        }
                    }
                    assert(has_key(s0, k));
                    lemma_pop_drop_keys(s0, ki.to_set(), k);
                    ki.lemma_push_to_set_commute(k);
                    assert(l2_0.remove_keys(ki.to_set()).remove(k) =~= l2_0.remove_keys(ki.push(k).to_set()));
                    assert(cdn_keys(pfx, ki.push(k)) =~= cdn_keys(pfx, ki).insert(cdn_key(pfx, k))) by {
                        let m = ki.map_values(|x: Seq<char>| cdn_key(pfx, x));
                        assert(ki.push(k).map_values(|x: Seq<char>| cdn_key(pfx, x)) =~= m.push(cdn_key(pfx, k)));
                        m.lemma_push_to_set_commute(cdn_key(pfx, k));
                    }
                    assert(l3_0.remove_keys(cdn_keys(pfx, ki)).remove(cdn_key(pfx, k))
                        =~= l3_0.remove_keys(cdn_keys(pfx, ki.push(k))));
                }
                self.evict(keys[i].as_str());
            }
            i += 1;
        }
        proof {
            assert(s0.take(keys.len() as int) =~= s0);
            let kall = keys_with_prefix(s0, prefix@);
            lemma_drop_keys_subset(s0, kall.to_set());
            assert forall|j: int| 0 <= j < self.l1().len() implies !has_prefix(#[trigger] self.l1()[j].0, prefix@) by {
                let key = self.l1()[j].0;
                assert(!kall.to_set().contains(key));
                let w = choose|w: int| 0 <= w < s0.len() && s0[w].0 == key;
                if has_prefix(key, prefix@) {
                    lemma_prefixed_key_listed(s0, prefix@, w);
                }
            }
            lemma_keys_with_prefix_prefixed(s0, prefix@);
            assert(l2_0.remove_keys(kall.to_set()).remove_keys(prefixed(prefix@)) =~= l2_0.remove_keys(prefixed(prefix@)));
            assert(cdn_keys(pfx, kall).subset_of(prefixed(cdn_key(pfx, prefix@)))) by {
                assert forall|c: Seq<char>| cdn_keys(pfx, kall).contains(c) implies prefixed(cdn_key(pfx, prefix@)).contains(c) by {
                    let m = kall.map_values(|x: Seq<char>| cdn_key(pfx, x));
                    let j = choose|j: int| 0 <= j < m.len() && m[j] == c;
                    assert(kall.to_set().contains(kall[j]));
                    lemma_cdn_key_prefix(pfx, kall[j], prefix@);
                }
            }
            assert(l3_0.remove_keys(cdn_keys(pfx, kall)).remove_keys(prefixed(cdn_key(pfx, prefix@)))
                =~= l3_0.remove_keys(prefixed(cdn_key(pfx, prefix@))));
        }
        if self.config.l2_redis_enabled {
            self.l2.evict_prefixed(prefix);
        }
        if self.config.l3_cdn_enabled {
            self.l3.evict_prefixed(prefix);
        }
    }
}

proof fn lemma_drop_none(s: Seq<(Seq<char>, EntryView)>)
    ensures
        drop_keys(s, Set::<Seq<char>>::empty()) == s,
    decreases s.len(),
{
    if s.len() > 0 {
        lemma_drop_none(s.drop_last());
        assert(s.drop_last().push(s.last()) =~= s);
    }
}

proof fn lemma_prefixed_key_listed(s: Seq<(Seq<char>, EntryView)>, p: Seq<char>, w: int)
    requires
        0 <= w < s.len(),
        has_prefix(s[w].0, p),
    ensures
        keys_with_prefix(s, p).to_set().contains(s[w].0),
    decreases s.len(),
{
    let s2 = s.drop_last();
    let kp = keys_with_prefix(s, p);
    if w == s.len() - 1 {
        assert(s[s.len() - 1] == s.last());
        assert(kp[kp.len() - 1] == s[w].0);
    } else {
        assert(s2[w] == s[w]);
        lemma_prefixed_key_listed(s2, p, w);
        let k2 = keys_with_prefix(s2, p);
        let j = choose|j: int| 0 <= j < k2.len() && k2[j] == s[w].0;
        if has_prefix(s.last().0, p) {
            assert(kp[j] == k2[j]);
        }
    }
}

} // verus!

verus! {

/// Read-after-write: a lookup made at the time of a put, with a non-zero L1
/// TTL, is answered from L1 with the data just stored.
pub proof fn law_get_after_put_hits_l1(s0: HorizonCache, s1: HorizonCache, s2: HorizonCache,
    key: Seq<char>, data: Seq<u8>, now_ms: u64, r: Option<(Seq<u8>, CacheLayer)>)
    requires
        s0.wf(),
        s0.config_view().l1_ttl_secs > 0,
        HorizonCache::put_post(s0, s1, key, data, now_ms),
        HorizonCache::get_post(s1, s2, key, now_ms, r),
    ensures
        r == Some((data, CacheLayer::L1Memory)),
{
    let e = stored(data, now_ms, s0.config_view().l1_ttl_secs, CacheLayer::L1Memory);
    let l = s1.l1();
    assert(l[0] == (key, e));
    assert(keys_unique(l));
    lemma_lru_find_some(l, 0);
    assert(fresh(e, now_ms));
}

/// An L1 entry serves lookups for exactly its TTL, in seconds: after a put
/// at `t`, a lookup less than `1000 * l1_ttl_secs` milliseconds later is
/// answered from L1 with the data stored, and one at least that much later
/// is not answered from L1.
pub proof fn law_l1_entry_expires(s0: HorizonCache, s1: HorizonCache, s2: HorizonCache,
    key: Seq<char>, data: Seq<u8>, t: u64, now: u64, r: Option<(Seq<u8>, CacheLayer)>)
    requires
        s0.wf(),
        t <= now,
        HorizonCache::put_post(s0, s1, key, data, t),
        HorizonCache::get_post(s1, s2, key, now, r),
    ensures
        now - t < s0.config_view().l1_ttl_secs * 1000 ==> r == Some((data, CacheLayer::L1Memory)),
        now - t >= s0.config_view().l1_ttl_secs * 1000 ==> (r is None || r.unwrap().1 != CacheLayer::L1Memory),
{
    let e = stored(data, t, s0.config_view().l1_ttl_secs, CacheLayer::L1Memory);
    let l = s1.l1();
    assert(l[0] == (key, e));
    assert(keys_unique(l));
    lemma_lru_find_some(l, 0);
}

/// After evicting by the prefix `p`, a lookup of any key that starts with `p`
/// finds nothing, in any layer.
pub proof fn law_get_after_evict_by_prefix_misses(s0: HorizonCache, s1: HorizonCache, s2: HorizonCache,
    p: Seq<char>, key: Seq<char>, now_ms: u64, r: Option<(Seq<u8>, CacheLayer)>)
    requires
        s0.wf(),
        HorizonCache::evict_by_prefix_post(s0, s1, p),
        has_prefix(key, p),
        HorizonCache::get_post(s1, s2, key, now_ms, r),
    ensures
        r is None,
{
    if lru_find(s1.l1(), key) is Some {
        let i = choose|i: int| 0 <= i < s1.l1().len() && s1.l1()[i].0 == key;
        assert(!has_prefix(s1.l1()[i].0, p));
    }
    assert(prefixed(p).contains(key));
    lemma_cdn_key_prefix(s0.cdn_prefix(), key, p);
    assert(prefixed(cdn_key(s0.cdn_prefix(), p)).contains(cdn_key(s0.cdn_prefix(), key)));
}

/// After `key` is evicted, looking it up finds nothing in any layer.
pub proof fn law_get_after_evict_misses(s0: HorizonCache, s1: HorizonCache, s2: HorizonCache,
    key: Seq<char>, now_ms: u64, r: Option<(Seq<u8>, CacheLayer)>)
    requires
        s0.wf(),
        s1.wf(),
        s1.config_view() == s0.config_view(),
        s1.cdn_prefix() == s0.cdn_prefix(),
        s1.l1() == lru_pop(s0.l1(), key),
        s1.l2() == if s0.config_view().l2_redis_enabled { s0.l2().remove(key) } else { s0.l2() },
        s1.l3() == if s0.config_view().l3_cdn_enabled { s0.l3().remove(cdn_key(s0.cdn_prefix(), key)) } else { s0.l3() },
        HorizonCache::get_post(s1, s2, key, now_ms, r),
    ensures
        r is None,
{
    lemma_lru_pop_wf(s0.l1(), key);
    assert(lru_find(s1.l1(), key) is None);
}

} // verus!

verus! {

/// A key without the prefix is not among the keys with it.
pub proof fn lemma_unprefixed_not_listed(s: Seq<(Seq<char>, EntryView)>, p: Seq<char>, k: Seq<char>)
    requires
        !has_prefix(k, p),
    ensures
        !keys_with_prefix(s, p).to_set().contains(k),
    decreases s.len(),
{
    if s.len() > 0 {
        lemma_unprefixed_not_listed(s.drop_last(), p, k);
        let k2 = keys_with_prefix(s.drop_last(), p);
        if has_prefix(s.last().0, p) {
            k2.lemma_push_to_set_commute(s.last().0);
        }
    }
}

} // verus!
