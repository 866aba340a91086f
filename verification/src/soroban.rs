//! The Soroban contract result cache: configuration, on-disk key naming and
//! the plan of which second-level entries to evict.
//!
//! The in-memory level and the files of the second level are the caller's;
//! this module decides names, counters and evictions.

use vstd::prelude::*;
use crate::text::{owned, concat2, chars_of, string_from_chars, parse_u64, parse_u64_spec, trim, trimmed};

verus! {

/// Which second-level entries are evicted first.
#[derive(Clone, Copy, Debug, PartialEq, Eq, Structural)]
pub enum EvictionPolicy {
    /// Least frequently used: lowest hit count first.
    Lfu,
    /// Least recently used: oldest modification first.
    Lru,
}

impl Default for EvictionPolicy {
    fn default() -> (r: Self)
        ensures
            r == EvictionPolicy::Lfu,
    {
        EvictionPolicy::Lfu
    }
}

/// Configuration of the Soroban cache.
#[derive(Clone, Debug, PartialEq, Eq)]
pub struct SorobanCacheConfig {
    /// Entries held in memory.
    pub l1_capacity: usize,
    /// Directory of the on-disk level.
    pub l2_path: String,
    /// Bytes the on-disk level may hold.
    pub l2_max_bytes: u64,
    pub eviction_policy: EvictionPolicy,
}

fn default_l1_capacity() -> (r: usize)
    ensures
        r == 1024,
{
    1_024
}

fn default_l2_path() -> (r: String)
    ensures
        r@ == "/cache/soroban"@,
{
    owned("/cache/soroban")
}

fn default_l2_max_bytes() -> (r: u64)
    ensures
        r == 2 * 1024 * 1024 * 1024,
{
    2 * 1024 * 1024 * 1024
}

impl Default for SorobanCacheConfig {
    /// 1024 entries in memory; 2 GiB on disk under `/cache/soroban`; LFU.
    fn default() -> (r: Self)
        ensures
            r.l1_capacity == 1024,
            r.l2_path@ == "/cache/soroban"@,
            r.l2_max_bytes == 2 * 1024 * 1024 * 1024,
            r.eviction_policy == EvictionPolicy::Lfu,
    {
        SorobanCacheConfig {
            l1_capacity: default_l1_capacity(),
            l2_path: default_l2_path(),
            l2_max_bytes: default_l2_max_bytes(),
            eviction_policy: EvictionPolicy::Lfu,
        }
    }
}

/// The capacity of the in-memory level: the configured one, at least 1.
pub fn l1_capacity(config: &SorobanCacheConfig) -> (r: usize)
    ensures
        r == (if config.l1_capacity > 1 { config.l1_capacity } else { 1 }),
        r >= 1,
{
    if config.l1_capacity > 1 { config.l1_capacity } else { 1 }
}

/// Whether `char::is_alphanumeric` holds of a character (Unicode's
/// Alphabetic or Numeric property).
pub uninterp spec fn alphanumeric(c: char) -> bool;

/// `char::is_alphanumeric`.
#[verifier::external_body]
fn is_alphanumeric(c: char) -> (r: bool)
    ensures
        r == alphanumeric(c),
{
    c.is_alphanumeric()
}

/// A key character as it appears in file names: kept when alphanumeric or
/// `-`, else `_`.
pub open spec fn file_char(c: char) -> char {
    if alphanumeric(c) || c == '-' { c } else { '_' }
}

/// A cache key made safe as a file name.
pub open spec fn sanitised(key: Seq<char>) -> Seq<char> {
    key.map_values(|c: char| file_char(c))
}

/// Makes a cache key safe as a file name: every character that is neither
/// alphanumeric nor `-` becomes `_`.
pub fn sanitise_key(key: &str) -> (r: String)
    ensures
        r@ == sanitised(key@),
{
    let cs = chars_of(key);
    let mut out: Vec<char> = Vec::new();
    let mut i: usize = 0;
    while i < cs.len()
        invariant
            i <= cs.len(),
            cs@ == key@,
            out@ == sanitised(key@.take(i as int)),
        decreases cs.len() - i,
    {
        let c = cs[i];
        let d = if is_alphanumeric(c) || c == '-' { c } else { '_' };
        out.push(d);
        i += 1;
        assert(out@ =~= sanitised(key@.take(i as int)));
    }
    assert(key@.take(cs.len() as int) =~= key@);
    string_from_chars(out.as_slice())
}

/// The file holding the hit count of an entry: `{sanitised key}.cnt`.
pub fn count_file_name(key: &str) -> (r: String)
    ensures
        r@ == sanitised(key@) + ".cnt"@,
{
    concat2(sanitise_key(key).as_str(), ".cnt")
}

/// The hit count a count file's text holds: the trimmed text parsed as `u64`.
pub fn parse_count(text: &str) -> (r: Option<u64>)
    ensures
        r == parse_u64_spec(trimmed(text@)),
{
    parse_u64(trim(text).as_str())
}

/// The hit count after one more hit, starting from 0 when unknown.
pub fn next_count(previous: Option<u64>) -> (r: u64)
    requires
        previous != Some(u64::MAX),
    ensures
        r == (match previous { Some(c) => c + 1, None => 1 }),
{
    match previous {
        Some(c) => c + 1,
        None => 1,
    }
}

/// The eviction score of an entry (lowest evicted first): its hit count
/// under LFU (0 when unknown); under LRU, `u64::MAX` minus its age in
/// seconds (0 when unknown), so that older entries go first.
pub fn eviction_score(policy: EvictionPolicy, hit_count: Option<u64>, age_secs: Option<u64>) -> (r: u64)
    ensures
        r == match policy {
            EvictionPolicy::Lfu => match hit_count { Some(c) => c, None => 0 },
            EvictionPolicy::Lru => match age_secs { Some(a) => (u64::MAX - a) as u64, None => 0 },
        },
{
    match policy {
        EvictionPolicy::Lfu => match hit_count {
            Some(c) => c,
            None => 0,
        },
        EvictionPolicy::Lru => match age_secs {
            Some(a) => u64::MAX - a,
            None => 0,
        },
    }
}

/// An on-disk entry that may be evicted.
#[derive(Clone, Debug)]
pub struct EvictionCandidate {
    pub name: String,
    pub score: u64,
    pub size: u64,
}

/// A candidate as (name, score, size).
pub type CandidateView = (Seq<char>, u64, u64);

/// The candidates of score `q`, in order.
pub open spec fn with_score(s: Seq<CandidateView>, q: u64) -> Seq<CandidateView>
    decreases s.len(),
{
    if s.len() == 0 {
        s
    } else if s.last().1 == q {
        with_score(s.drop_last(), q).push(s.last())
    } else {
        with_score(s.drop_last(), q)
    }
}

/// Candidates in ascending order of score.
pub open spec fn score_ascending(s: Seq<CandidateView>) -> bool {
    forall|i: int, j: int| 0 <= i < j < s.len() ==> s[i].1 <= s[j].1
}

/// `r` is `s` stably sorted by ascending score (as `sort_by_key` sorts).
pub open spec fn stable_score_sort_of(r: Seq<CandidateView>, s: Seq<CandidateView>) -> bool {
    &&& r.len() == s.len()
    &&& score_ascending(r)
    &&& forall|q: u64| #[trigger] with_score(r, q) == with_score(s, q)
}

/// The total size of candidates.
pub open spec fn total_size(s: Seq<CandidateView>) -> int
    decreases s.len(),
{
    if s.len() == 0 { 0 } else { total_size(s.drop_last()) + s.last().2 }
}

/// How many candidates, taken in order, are evicted to free `need` bytes:
/// eviction stops as soon as the freed bytes reach `need`.
pub open spec fn evict_count(s: Seq<CandidateView>, need: int) -> nat
    decreases s.len(),
{
    if need <= 0 || s.len() == 0 { 0 } else { 1 + evict_count(s.drop_first(), need - s[0].2) }
}

proof fn lemma_with_score_concat(a: Seq<CandidateView>, b: Seq<CandidateView>, q: u64)
    ensures
        with_score(a + b, q) == with_score(a, q) + with_score(b, q),
    decreases b.len(),
{
    if b.len() == 0 {
        assert(a + b =~= a);
        assert(with_score(b, q) =~= Seq::<CandidateView>::empty());
    } else {
        lemma_with_score_concat(a, b.drop_last(), q);
        assert((a + b).drop_last() =~= a + b.drop_last());
        assert((a + b).last() == b.last());
        if b.last().1 == q {
            assert(with_score(a, q) + with_score(b.drop_last(), q).push(b.last())
                =~= (with_score(a, q) + with_score(b.drop_last(), q)).push(b.last()));
        }
    }
}

proof fn lemma_with_score_none_above(s: Seq<CandidateView>, q: u64)
    requires
        forall|i: int| 0 <= i < s.len() ==> s[i].1 > q,
    ensures
        with_score(s, q) =~= Seq::<CandidateView>::empty(),
    decreases s.len(),
{
    if s.len() > 0 {
        lemma_with_score_none_above(s.drop_last(), q);
    }
}

proof fn lemma_with_score_single(x: CandidateView, q: u64)
    ensures
        with_score(seq![x], q) == (if x.1 == q { seq![x] } else { Seq::<CandidateView>::empty() }),
{
    assert(seq![x].drop_last() =~= Seq::<CandidateView>::empty());
    assert(seq![x].last() == x);
    assert(with_score(Seq::<CandidateView>::empty(), q) == Seq::<CandidateView>::empty());
    if x.1 == q {
        assert(Seq::<CandidateView>::empty().push(x) =~= seq![x]);
    }
}

/// Inserting `x` after every candidate of score at most `x`'s keeps the
/// order ascending and appends `x` to its score group.
proof fn lemma_insert_ascending(r: Seq<CandidateView>, pos: int, x: CandidateView)
    requires
        0 <= pos <= r.len(),
        score_ascending(r),
        forall|i: int| 0 <= i < pos ==> r[i].1 <= x.1,
        forall|i: int| pos <= i < r.len() ==> r[i].1 > x.1,
    ensures
        score_ascending(r.insert(pos, x)),
        forall|q: u64| #[trigger] with_score(r.insert(pos, x), q)
            == if q == x.1 { with_score(r, q).push(x) } else { with_score(r, q) },
{
    let r2 = r.insert(pos, x);
    assert(r2 =~= r.take(pos) + seq![x] + r.skip(pos));
    assert(r =~= r.take(pos) + r.skip(pos));
    assert forall|q: u64| #[trigger] with_score(r.insert(pos, x), q)
        == if q == x.1 { with_score(r, q).push(x) } else { with_score(r, q) } by {
        lemma_with_score_concat(r.take(pos) + seq![x], r.skip(pos), q);
        lemma_with_score_concat(r.take(pos), seq![x], q);
        lemma_with_score_concat(r.take(pos), r.skip(pos), q);
        lemma_with_score_single(x, q);
        if q == x.1 {
            lemma_with_score_none_above(r.skip(pos), q);
            assert(with_score(r.take(pos), q) + seq![x] =~= with_score(r.take(pos), q).push(x));
            assert(with_score(r.take(pos), q) + Seq::<CandidateView>::empty() =~= with_score(r.take(pos), q));
        } else {
            assert(with_score(r.take(pos), q) + Seq::<CandidateView>::empty() =~= with_score(r.take(pos), q));
        }
    }
}

/// The view of candidates.
pub open spec fn candidate_views(v: Seq<EvictionCandidate>) -> Seq<CandidateView> {
    v.map_values(|c: EvictionCandidate| (c.name@, c.score, c.size))
}

/// Sorts candidates by ascending score, keeping the order of equal scores.
fn sort_by_score(candidates: &[EvictionCandidate]) -> (r: Vec<EvictionCandidate>)
    ensures
        stable_score_sort_of(candidate_views(r@), candidate_views(candidates@)),
{
    let mut out: Vec<EvictionCandidate> = Vec::new();
    let mut i: usize = 0;
    proof {
        assert(candidate_views(out@) =~= Seq::<CandidateView>::empty());
        assert(candidate_views(candidates@.take(0)) =~= Seq::<CandidateView>::empty());
        assert forall|q: u64| #[trigger] with_score(Seq::<CandidateView>::empty(), q)
            == Seq::<CandidateView>::empty() by {}
    }
    while i < candidates.len()
        invariant
            i <= candidates.len(),
            stable_score_sort_of(candidate_views(out@), candidate_views(candidates@.take(i as int))),
        decreases candidates.len() - i,
    {
        let c = &candidates[i];
        let ghost x: CandidateView = (c.name@, c.score, c.size);
        let ghost e = candidate_views(candidates@.take(i as int));
        assert(candidate_views(candidates@.take(i + 1)) =~= e.push(x));
        let ghost before = candidate_views(out@);
        let mut pos: usize = 0;
        while pos < out.len() && out[pos].score <= c.score
            invariant
                pos <= out.len(),
                before == candidate_views(out@),
                forall|k: int| 0 <= k < pos ==> before[k].1 <= x.1,
                x.1 == c.score,
            decreases out.len() - pos,
        {
            pos += 1;
        }
        proof {
            assert forall|k: int| pos <= k < before.len() implies before[k].1 > x.1 by {
                assert(before[pos as int].1 > x.1);
                assert(before[pos as int].1 <= before[k].1);
            }
            lemma_insert_ascending(before, pos as int, x);
        }
        out.insert(pos, EvictionCandidate { name: owned(c.name.as_str()), score: c.score, size: c.size });
        proof {
            let after = candidate_views(out@);
            assert(after =~= before.insert(pos as int, x));
            assert forall|q: u64| #[trigger] with_score(after, q) == with_score(e.push(x), q) by {
                assert(with_score(before, q) == with_score(e, q));
                assert(e.push(x).drop_last() =~= e);
                assert(e.push(x).last() == x);
            }
        }
        i += 1;
    }
    assert(candidates@.take(candidates.len() as int) =~= candidates@);
    out
}

/// The names of candidates, in order.
pub open spec fn names_of(s: Seq<CandidateView>) -> Seq<Seq<char>> {
    s.map_values(|c: CandidateView| c.0)
}

/// Which on-disk entries to evict before storing `incoming` more bytes when
/// `current` are stored and `max` are allowed: none when they fit; else the
/// entries by ascending score (equal scores in listing order), stopping as
/// soon as the freed bytes cover the excess.
pub fn plan_l2_eviction(current: u64, incoming: u64, max: u64, candidates: &[EvictionCandidate]) -> (r: Vec<String>)
    requires
        current + incoming <= u64::MAX,
        total_size(candidate_views(candidates@)) <= u64::MAX,
    ensures
        current + incoming <= max ==> r@.len() == 0,
        current + incoming > max ==> exists|sorted: Seq<CandidateView>|
            #[trigger] stable_score_sort_of(sorted, candidate_views(candidates@))
            && r@.map_values(|s: String| s@) == names_of(sorted.take(evict_count(sorted, current + incoming - max) as int)),
{
    let mut out: Vec<String> = Vec::new();
    if current + incoming <= max {
        return out;
    }
    let sorted = sort_by_score(candidates);
    let ghost sv = candidate_views(sorted@);
    let need = (current + incoming) - max;
    let mut freed: u64 = 0;
    let mut i: usize = 0;
    proof {
        lemma_total_size_perm(sv, candidate_views(candidates@));
        assert(sv.skip(0) =~= sv);
        assert(sv.take(0) =~= Seq::<CandidateView>::empty());
        assert(out@.map_values(|s: String| s@) =~= names_of(sv.take(0)));
    }
    while i < sorted.len()
        invariant
            i <= sorted.len(),
            sv == candidate_views(sorted@),
            need == current + incoming - max,
            freed == total_size(sv.take(i as int)),
            total_size(sv) <= u64::MAX,
            out@.map_values(|s: String| s@) == names_of(sv.take(i as int)),
            evict_count(sv, need as int) == i + evict_count(sv.skip(i as int), need - freed),
        ensures
            i == sorted.len() || freed >= need,
            freed == total_size(sv.take(i as int)),
            out@.map_values(|s: String| s@) == names_of(sv.take(i as int)),
            evict_count(sv, need as int) == i + evict_count(sv.skip(i as int), need - freed),
        decreases sorted.len() - i,
    {
        if freed >= need {
            break;
        }
        proof {
            assert(sv.skip(i as int).drop_first() =~= sv.skip(i + 1));
            assert(sv.take(i + 1).drop_last() =~= sv.take(i as int));
            lemma_total_size_prefix(sv, i + 1);
        }
        let ghost before = out@;
        let name = owned(sorted[i].name.as_str());
        assert(name@ == sv[i as int].0);
        out.push(name);
        freed = freed + sorted[i].size;
        i += 1;
        assert(out@.map_values(|s: String| s@) =~= before.map_values(|s: String| s@).push(name@));
        assert(names_of(sv.take(i as int)) =~= names_of(sv.take(i - 1)).push(sv[i - 1].0));
    }
    proof {
        if i == sorted.len() {
            assert(sv.skip(i as int).len() == 0);
        }
        assert(evict_count(sv.skip(i as int), need - freed) == 0);
        assert(evict_count(sv, need as int) == i);
    }
    out
}

proof fn lemma_total_size_prefix(s: Seq<CandidateView>, k: int)
    requires
        0 <= k <= s.len(),
    ensures
        total_size(s.take(k)) <= total_size(s),
    decreases s.len() - k,
{
    if k < s.len() {
        lemma_total_size_prefix(s, k + 1);
        assert(s.take(k + 1).drop_last() =~= s.take(k));
    } else {
        assert(s.take(k) =~= s);
    }
}

proof fn lemma_total_size_concat(a: Seq<CandidateView>, b: Seq<CandidateView>)
    ensures
        total_size(a + b) == total_size(a) + total_size(b),
    decreases b.len(),
{
    if b.len() == 0 {
        assert(a + b =~= a);
    } else {
        lemma_total_size_concat(a, b.drop_last());
        assert((a + b).drop_last() =~= a + b.drop_last());
    }
}

/// Two sequences with the same score groups have the same total size.
proof fn lemma_total_size_by_score(s: Seq<CandidateView>, r: Seq<CandidateView>)
    requires
        forall|q: u64| #[trigger] with_score(r, q) == with_score(s, q),
        r.len() == s.len(),
    ensures
        total_size(r) == total_size(s),
    decreases s.len(),
{
    assert(r.to_multiset() =~= s.to_multiset()) by {
        lemma_multiset_by_score(r, s);
    }
    lemma_total_size_multiset(r, s);
}

proof fn lemma_multiset_by_score(r: Seq<CandidateView>, s: Seq<CandidateView>)
    requires
        forall|q: u64| #[trigger] with_score(r, q) == with_score(s, q),
    ensures
        r.to_multiset() =~= s.to_multiset(),
{
    broadcast use vstd::seq_lib::group_to_multiset_ensures;
    assert forall|x: CandidateView| r.to_multiset().count(x) == s.to_multiset().count(x) by {
        lemma_count_in_group(r, x);
        lemma_count_in_group(s, x);
        assert(with_score(r, x.1) == with_score(s, x.1));
    }
}

proof fn lemma_count_in_group(s: Seq<CandidateView>, x: CandidateView)
    ensures
        s.to_multiset().count(x) == with_score(s, x.1).to_multiset().count(x),
    decreases s.len(),
{
    broadcast use vstd::seq_lib::group_to_multiset_ensures;
    if s.len() > 0 {
        lemma_count_in_group(s.drop_last(), x);
        assert(s =~= s.drop_last().push(s.last()));
        if s.last().1 == x.1 {
        }
    }
}

proof fn lemma_total_size_multiset(r: Seq<CandidateView>, s: Seq<CandidateView>)
    requires
        r.to_multiset() =~= s.to_multiset(),
    ensures
        total_size(r) == total_size(s),
    decreases r.len(),
{
    broadcast use vstd::seq_lib::group_to_multiset_ensures;
    if r.len() > 0 {
        let x = r.last();
        assert(r =~= r.drop_last().push(x));
        assert(s.to_multiset().count(x) > 0);
        let j = choose|j: int| 0 <= j < s.len() && s[j] == x;
        let s2 = s.remove(j);
        assert(s =~= s.take(j) + seq![x] + s.skip(j + 1));
        assert(s2 =~= s.take(j) + s.skip(j + 1));
        vstd::seq_lib::lemma_seq_union_to_multiset_commutative(s.take(j), seq![x]);
        assert(s2.to_multiset() =~= s.to_multiset().remove(x)) by {
            vstd::seq_lib::lemma_multiset_commutative(s.take(j) + seq![x], s.skip(j + 1));
            vstd::seq_lib::lemma_multiset_commutative(s.take(j), seq![x]);
            vstd::seq_lib::lemma_multiset_commutative(s.take(j), s.skip(j + 1));
        }
        assert(r.drop_last().to_multiset() =~= r.to_multiset().remove(x));
        lemma_total_size_multiset(r.drop_last(), s2);
        lemma_total_size_concat(s.take(j) + seq![x], s.skip(j + 1));
        lemma_total_size_concat(s.take(j), seq![x]);
        lemma_total_size_concat(s.take(j), s.skip(j + 1));
        assert(total_size(seq![x]) == x.2) by {
            assert(seq![x].drop_last() =~= Seq::<CandidateView>::empty());
            assert(seq![x].last() == x);
            assert(total_size(Seq::<CandidateView>::empty()) == 0);
        }
    } else {
        assert(s.to_multiset().len() == 0);
        assert(s.len() == 0);
    }
}

/// Sorting keeps the total size.
proof fn lemma_total_size_perm(r: Seq<CandidateView>, s: Seq<CandidateView>)
    requires
        stable_score_sort_of(r, s),
    ensures
        total_size(r) == total_size(s),
{
    lemma_total_size_by_score(s, r);
}


proof fn lemma_total_first(s: Seq<CandidateView>)
    requires
        s.len() > 0,
    ensures
        total_size(s) == s[0].2 + total_size(s.drop_first()),
    decreases s.len(),
{
    if s.len() == 1 {
        assert(s.drop_last().len() == 0);
        assert(total_size(s.drop_last()) == 0);
        assert(s.drop_first().len() == 0);
        assert(total_size(s.drop_first()) == 0);
        assert(s.last() == s[0]);
    } else {
        let dl = s.drop_last();
        lemma_total_first(dl);
        assert(dl[0] == s[0]);
        assert(dl.drop_first() =~= s.drop_first().drop_last());
        assert(s.drop_first().last() == s.last());
        assert(total_size(s.drop_first()) == total_size(s.drop_first().drop_last()) + s.drop_first().last().2);
        assert(total_size(s) == total_size(dl) + s.last().2);
    }
}

proof fn lemma_evict_count_bound(s: Seq<CandidateView>, need: int)
    ensures
        evict_count(s, need) <= s.len(),
    decreases s.len(),
{
    if need > 0 && s.len() > 0 {
        lemma_evict_count_bound(s.drop_first(), need - s[0].2);
    }
}

/// When the candidates hold enough bytes, evicting them in order up to
/// [`evict_count`] frees at least what is needed.
pub proof fn law_eviction_frees_enough(s: Seq<CandidateView>, need: int)
    requires
        total_size(s) >= need,
    ensures
        total_size(s.take(evict_count(s, need) as int)) >= need,
    decreases s.len(),
{
    if need <= 0 || s.len() == 0 {
        assert(s.take(0).len() == 0);
    } else {
        let t = s.drop_first();
        lemma_total_first(s);
        law_eviction_frees_enough(t, need - s[0].2);
        let c = evict_count(t, need - s[0].2);
        lemma_evict_count_bound(t, need - s[0].2);
        assert(evict_count(s, need) == c + 1);
        let p = s.take((c + 1) as int);
        assert(p.len() > 0);
        lemma_total_first(p);
        assert(p.drop_first() =~= t.take(c as int));
        assert(p[0] == s[0]);
    }
}

/// Eviction stops as soon as enough is freed: without its last candidate
/// the plan would free less than needed.
pub proof fn law_eviction_stops_early(s: Seq<CandidateView>, need: int)
    requires
        evict_count(s, need) > 0,
    ensures
        total_size(s.take(evict_count(s, need) - 1)) < need,
    decreases s.len(),
{
    let t = s.drop_first();
    let c = evict_count(t, need - s[0].2);
    assert(evict_count(s, need) == c + 1);
    lemma_evict_count_bound(t, need - s[0].2);
    if c == 0 {
        assert(s.take(0).len() == 0);
        assert(total_size(s.take(0)) == 0);
    } else {
        law_eviction_stops_early(t, need - s[0].2);
        let p = s.take(c as int);
        assert(p.len() > 0);
        lemma_total_first(p);
        assert(p.drop_first() =~= t.take(c - 1));
        assert(p[0] == s[0]);
    }
}

} // verus!
