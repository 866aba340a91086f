//! Access-pattern learning for predictive prefetching of Horizon queries.
//!
//! The engine counts how often each cache key is requested and which key
//! follows which. Turning those counts into ranked predictions weighs them
//! with floating-point confidences, which the caller does.

use vstd::prelude::*;
use vstd::hash_map::StringHashMap;
use crate::text::{owned, str_eq};
use crate::horizon_cache::optimizer::{QueryOptimizer, cache_key_spec};

verus! {

/// (key, count) pairs as character sequences.
pub open spec fn pair_view(v: Seq<(String, u64)>) -> Seq<(Seq<char>, u64)> {
    v.map_values(|p: (String, u64)| (p.0@, p.1))
}

/// The counts of `s` after one more occurrence of `k`: its count goes up by
/// one, or it is appended with a count of one.
pub open spec fn bump_pair(s: Seq<(Seq<char>, u64)>, k: Seq<char>) -> Seq<(Seq<char>, u64)>
    decreases s.len(),
{
    if s.len() == 0 {
        seq![(k, 1u64)]
    } else if s[0].0 == k {
        seq![(k, (s[0].1 + 1) as u64)] + s.drop_first()
    } else {
        seq![s[0]] + bump_pair(s.drop_first(), k)
    }
}

/// The count of `k` in `s`, 0 when absent.
pub open spec fn pair_count(s: Seq<(Seq<char>, u64)>, k: Seq<char>) -> u64
    decreases s.len(),
{
    if s.len() == 0 {
        0
    } else if s[0].0 == k {
        s[0].1
    } else {
        pair_count(s.drop_first(), k)
    }
}

/// Predictive prefetching engine using access frequency analysis.
pub struct PrefetchEngine {
    access_counts: StringHashMap<u64>,
    co_occurrence: StringHashMap<Vec<(String, u64)>>,
    last_accessed: Option<String>,
}

impl PrefetchEngine {
    /// How often each cache key was requested.
    pub closed spec fn accesses(&self) -> Map<Seq<char>, u64> {
        self.access_counts@
    }

    /// The keys requested right after `prev`, with how often, in order of
    /// first occurrence.
    pub closed spec fn followers(&self, prev: Seq<char>) -> Seq<(Seq<char>, u64)> {
        if self.co_occurrence@.contains_key(prev) { pair_view(self.co_occurrence@[prev]@) } else { seq![] }
    }

    /// The last requested key.
    pub closed spec fn last(&self) -> Option<Seq<char>> {
        match self.last_accessed {
            Some(s) => Some(s@),
            None => None,
        }
    }

    /// An engine that has seen nothing.
    pub fn new() -> (r: PrefetchEngine)
        ensures
            r.accesses() == Map::<Seq<char>, u64>::empty(),
            forall|k: Seq<char>| #[trigger] r.followers(k) == Seq::<(Seq<char>, u64)>::empty(),
            r.last().is_none(),
    {
        PrefetchEngine { access_counts: StringHashMap::new(), co_occurrence: StringHashMap::new(), last_accessed: None }
    }

    /// How often `key` was requested.
    pub fn access_count(&self, key: &str) -> (r: u64)
        ensures
            r == (if self.accesses().contains_key(key@) { self.accesses()[key@] } else { 0 }),
    {
        match self.access_counts.get(key) {
            Some(c) => *c,
            None => 0,
        }
    }

    /// The keys requested right after `key`, with how often.
    pub fn co_occurrences(&self, key: &str) -> (r: Vec<(String, u64)>)
        ensures
            pair_view(r@) == self.followers(key@),
    {
        match self.co_occurrence.get(key) {
            Some(v) => copy_pairs(v),
            None => Vec::new(),
        }
    }

    /// Records a request of `path`: the count of its cache key goes up by
    /// one, and so does the count of that key following the previously
    /// requested one; the key becomes the last requested.
    pub fn record_access(&mut self, path: &str)
        requires
            (if old(self).accesses().contains_key(cache_key_spec(path@)) {
                old(self).accesses()[cache_key_spec(path@)]
            } else {
                0
            }) < u64::MAX,
            match old(self).last() {
                Some(prev) => pair_count(old(self).followers(prev), cache_key_spec(path@)) < u64::MAX,
                None => true,
            },
        ensures
            final(self).accesses() == old(self).accesses().insert(
                cache_key_spec(path@),
                ((if old(self).accesses().contains_key(cache_key_spec(path@)) {
                    old(self).accesses()[cache_key_spec(path@)]
                } else {
                    0
                }) + 1) as u64,
            ),
            match old(self).last() {
                Some(prev) => forall|k: Seq<char>| #[trigger] final(self).followers(k)
                    == if k == prev { bump_pair(old(self).followers(prev), cache_key_spec(path@)) } else { old(self).followers(k) },
                None => forall|k: Seq<char>| #[trigger] final(self).followers(k) == old(self).followers(k),
            },
            final(self).last() == Some(cache_key_spec(path@)),
    {
        let key = QueryOptimizer::plan(path, false).cache_key;
        let count = match self.access_counts.get(key.as_str()) {
            Some(c) => *c,
            None => 0,
        };
        self.access_counts.insert(owned(key.as_str()), count + 1);
        match &self.last_accessed {
            Some(prev) => {
                let list = match self.co_occurrence.get(prev.as_str()) {
                    Some(v) => copy_pairs(v),
                    None => Vec::new(),
                };
                let bumped = bump(list, key.as_str());
                let p = owned(prev.as_str());
                self.co_occurrence.insert(p, bumped);
            },
            None => {},
        }
        self.last_accessed = Some(key);
    }
}

impl Default for PrefetchEngine {
    fn default() -> (r: Self)
        ensures
            r.accesses() == Map::<Seq<char>, u64>::empty(),
            r.last().is_none(),
    {
        PrefetchEngine::new()
    }
}

/// A copy of (key, count) pairs.
fn copy_pairs(v: &Vec<(String, u64)>) -> (r: Vec<(String, u64)>)
    ensures
        pair_view(r@) == pair_view(v@),
{
    let mut out: Vec<(String, u64)> = Vec::new();
    let mut i: usize = 0;
    while i < v.len()
        invariant
            i <= v.len(),
            pair_view(out@) == pair_view(v@).take(i as int),
        decreases v.len() - i,
    {
        let s = owned(v[i].0.as_str());
        let ghost before = out@;
        out.push((s, v[i].1));
        i += 1;
        assert(pair_view(out@) =~= pair_view(before).push((s@, v@[i - 1].1)));
        assert(pair_view(v@).take(i as int) =~= pair_view(v@).take(i - 1).push(pair_view(v@)[i - 1]));
    }
    assert(pair_view(v@).take(v.len() as int) =~= pair_view(v@));
    out
}

proof fn lemma_bump_split(s: Seq<(Seq<char>, u64)>, k: Seq<char>, i: int)
    requires
        0 <= i <= s.len(),
        forall|j: int| 0 <= j < i ==> s[j].0 != k,
    ensures
        bump_pair(s, k) == s.take(i) + bump_pair(s.skip(i), k),
        pair_count(s, k) == pair_count(s.skip(i), k),
    decreases i,
{
    if i > 0 {
        let t = s.drop_first();
        assert forall|j: int| 0 <= j < i - 1 implies t[j].0 != k by {
            assert(t[j] == s[j + 1]);
        }
        lemma_bump_split(t, k, i - 1);
        assert(t.skip(i - 1) =~= s.skip(i));
        assert(s.take(i) =~= seq![s[0]] + t.take(i - 1));
    } else {
        assert(s.take(0) + bump_pair(s, k) =~= bump_pair(s, k));
        assert(s.skip(0) =~= s);
    }
}

/// One more occurrence of `key` in the counts `list`.
fn bump(counts: Vec<(String, u64)>, key: &str) -> (r: Vec<(String, u64)>)
    requires
        pair_count(pair_view(counts@), key@) < u64::MAX,
    ensures
        pair_view(r@) == bump_pair(pair_view(counts@), key@),
{
    let mut list = counts;
    let ghost s = pair_view(list@);
    let mut i: usize = 0;
    while i < list.len()
        invariant
            i <= list.len(),
            s == pair_view(list@),
            s == pair_view(counts@),
            pair_count(s, key@) < u64::MAX,
            forall|j: int| 0 <= j < i ==> s[j].0 != key@,
        decreases list.len() - i,
    {
        if str_eq(list[i].0.as_str(), key) {
            proof {
                lemma_bump_split(s, key@, i as int);
                assert(s.skip(i as int)[0] == s[i as int]);
                assert(pair_count(s.skip(i as int), key@) == s[i as int].1);
            }
            let c = list[i].1;
            let k = owned(list[i].0.as_str());
            list.set(i, (k, c + 1));
            proof {
                assert(bump_pair(s.skip(i as int), key@) =~= seq![(key@, (c + 1) as u64)] + s.skip(i + 1)) by {
                    assert(s.skip(i as int).drop_first() =~= s.skip(i + 1));
                }
                assert(pair_view(list@) =~= s.take(i as int) + (seq![(key@, (c + 1) as u64)] + s.skip(i + 1)));
                assert(pair_view(list@) == bump_pair(s, key@));
            }
            return list;
        }
        i += 1;
    }
    proof {
        lemma_bump_split(s, key@, list.len() as int);
        assert(s.skip(list.len() as int) =~= Seq::<(Seq<char>, u64)>::empty());
        assert(s.take(list.len() as int) =~= s);
    }
    let ghost before = list@;
    list.push((owned(key), 1));
    assert(pair_view(list@) =~= s + seq![(key@, 1u64)]);
    list
}

} // verus!
