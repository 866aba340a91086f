//! Cache invalidation tied to ledger updates.

use vstd::prelude::*;
use crate::clock::unix_now_millis;
use crate::text::{owned, concat2, concat3, u64_to_string, decimal};
use crate::horizon_cache::cache::{HorizonCache, has_prefix, keys_with_prefix, drop_keys, has_key, EntryView, prefixed, cdn_key};

verus! {

/// Ledger update event triggering cache invalidation.
#[derive(Debug)]
pub struct InvalidationEvent {
    pub ledger_sequence: u64,
    /// Close time, in milliseconds since the Unix epoch (UTC).
    pub closed_at: i64,
    pub affected_prefixes: Vec<String>,
}

/// Cache key prefixes affected by the close of ledger `n`.
pub open spec fn affected_prefixes_spec(n: u64) -> Seq<Seq<char>> {
    seq![
        "ledger:"@ + decimal(n as nat) + ":"@,
        "ledgers:"@ + decimal(n as nat) + ":"@,
        "transactions:recent:"@,
        "payments:recent:"@,
        "effects:recent:"@,
    ]
}

/// Every key that starts with one of `ps`.
pub open spec fn prefixed_any(ps: Seq<Seq<char>>) -> Set<Seq<char>> {
    Set::new(|k: Seq<char>| exists|p: int| 0 <= p < ps.len() && has_prefix(k, #[trigger] ps[p]))
}

/// The CDN keys of the prefixes `ps`.
pub open spec fn cdn_prefixes(pfx: Seq<char>, ps: Seq<Seq<char>>) -> Seq<Seq<char>> {
    ps.map_values(|p: Seq<char>| cdn_key(pfx, p))
}

proof fn lemma_prefixed_any_step(ps: Seq<Seq<char>>, i: int)
    requires
        0 <= i < ps.len(),
    ensures
        prefixed_any(ps.take(i + 1)) == prefixed_any(ps.take(i)).union(prefixed(ps[i])),
{
    let a = ps.take(i + 1);
    let b = ps.take(i);
    assert forall|k: Seq<char>| prefixed_any(a).contains(k) <==> prefixed_any(b).contains(k) || prefixed(ps[i]).contains(k) by {
        if prefixed_any(a).contains(k) {
            let p = choose|p: int| 0 <= p < a.len() && has_prefix(k, #[trigger] a[p]);
            if p < i {
                assert(b[p] == a[p]);
            }
        }
        if prefixed_any(b).contains(k) {
            let p = choose|p: int| 0 <= p < b.len() && has_prefix(k, #[trigger] b[p]);
            assert(a[p] == b[p]);
        }
        if prefixed(ps[i]).contains(k) {
            assert(a[i] == ps[i]);
        }
    }
    assert(prefixed_any(a) =~= prefixed_any(b).union(prefixed(ps[i])));
}

/// Invalidates cached queries when the ledger advances.
pub struct LedgerInvalidator;

impl LedgerInvalidator {
    /// Cache key prefixes affected by a ledger close.
    pub fn affected_prefixes(ledger_sequence: u64) -> (r: Vec<String>)
        ensures
            r@.map_values(|s: String| s@) == affected_prefixes_spec(ledger_sequence),
    {
        let n = u64_to_string(ledger_sequence);
        let mut v: Vec<String> = Vec::new();
        v.push(concat3("ledger:", n.as_str(), ":"));
        v.push(concat3("ledgers:", n.as_str(), ":"));
        v.push(owned("transactions:recent:"));
        v.push(owned("payments:recent:"));
        v.push(owned("effects:recent:"));
        assert(v@.map_values(|s: String| s@) =~= affected_prefixes_spec(ledger_sequence));
        v
    }

    /// Evicts every cached entry under the prefixes affected by the close of
    /// `ledger_sequence` and reports the event.
    pub fn on_ledger_close(cache: &mut HorizonCache, ledger_sequence: u64) -> (r: InvalidationEvent)
        requires
            old(cache).wf(),
            old(cache).stats_view().total_evictions + 5 * old(cache).l1().len() <= u64::MAX,
        ensures
            final(cache).wf(),
            final(cache).config_view() == old(cache).config_view(),
            r.ledger_sequence == ledger_sequence,
            r.affected_prefixes@.map_values(|s: String| s@) == affected_prefixes_spec(ledger_sequence),
            forall|j: int, p: int| 0 <= j < final(cache).l1().len() && 0 <= p < 5 ==>
                !has_prefix(#[trigger] final(cache).l1()[j].0, #[trigger] affected_prefixes_spec(ledger_sequence)[p]),
            forall|j: int| 0 <= j < old(cache).l1().len()
                && (forall|p: int| 0 <= p < 5 ==> !has_prefix(old(cache).l1()[j].0, #[trigger] affected_prefixes_spec(ledger_sequence)[p]))
                ==> has_key(final(cache).l1(), #[trigger] old(cache).l1()[j].0),
            final(cache).l2() == if old(cache).config_view().l2_redis_enabled {
                old(cache).l2().remove_keys(prefixed_any(affected_prefixes_spec(ledger_sequence)))
            } else {
                old(cache).l2()
            },
            final(cache).l3() == if old(cache).config_view().l3_cdn_enabled {
                old(cache).l3().remove_keys(prefixed_any(cdn_prefixes(old(cache).cdn_prefix(), affected_prefixes_spec(ledger_sequence))))
            } else {
                old(cache).l3()
            },
    {
        let prefixes = Self::affected_prefixes(ledger_sequence);
        let ghost ps = affected_prefixes_spec(ledger_sequence);
        let ghost s0 = cache.l1();
        let ghost pfx = cache.cdn_prefix();
        let ghost cps = cdn_prefixes(pfx, ps);
        proof {
            assert(prefixed_any(ps.take(0)) =~= Set::<Seq<char>>::empty());
            assert(prefixed_any(cps.take(0)) =~= Set::<Seq<char>>::empty());
            assert(cache.l2().remove_keys(Set::<Seq<char>>::empty()) =~= cache.l2());
            assert(cache.l3().remove_keys(Set::<Seq<char>>::empty()) =~= cache.l3());
        }
        let mut i: usize = 0;
        while i < prefixes.len()
            invariant
                i <= prefixes.len(),
                prefixes@.map_values(|s: String| s@) == ps,
                ps.len() == 5,
                cache.wf(),
                cache.config_view() == old(cache).config_view(),
                cache.l1().len() <= s0.len(),
                s0 == old(cache).l1(),
                cache.stats_view().total_evictions + (5 - i) * cache.l1().len() <= u64::MAX,
                forall|j: int, p: int| 0 <= j < cache.l1().len() && 0 <= p < i ==>
                    !has_prefix(#[trigger] cache.l1()[j].0, #[trigger] ps[p]),
                forall|j: int| 0 <= j < s0.len()
                    && (forall|p: int| 0 <= p < 5 ==> !has_prefix(s0[j].0, #[trigger] ps[p]))
                    ==> has_key(cache.l1(), #[trigger] s0[j].0),
                pfx == old(cache).cdn_prefix(),
                cache.cdn_prefix() == pfx,
                cps == cdn_prefixes(pfx, ps),
                cache.l2() == if old(cache).config_view().l2_redis_enabled {
                    old(cache).l2().remove_keys(prefixed_any(ps.take(i as int)))
                } else {
                    old(cache).l2()
                },
                cache.l3() == if old(cache).config_view().l3_cdn_enabled {
                    old(cache).l3().remove_keys(prefixed_any(cps.take(i as int)))
                } else {
                    old(cache).l3()
                },
            decreases prefixes.len() - i,
        {
            let ghost before = cache.l1();
            proof {
                assert(prefixes@[i as int]@ == ps[i as int]);
                assert((5 - i) * before.len() == before.len() + (4 - i) * before.len()) by (nonlinear_arith)
                    requires i < 5;
                crate::horizon_cache::cache::lemma_drop_keys_subset(before, keys_with_prefix(before, ps[i as int]).to_set());
                crate::horizon_cache::cache::lemma_keys_with_prefix_len(before, ps[i as int]);
            }
            cache.evict_by_prefix(prefixes[i].as_str());
            proof {
                lemma_prefixed_any_step(ps, i as int);
                lemma_prefixed_any_step(cps, i as int);
                assert(cps[i as int] == cdn_key(pfx, ps[i as int]));
                assert(old(cache).l2().remove_keys(prefixed_any(ps.take(i as int))).remove_keys(prefixed(ps[i as int]))
                    =~= old(cache).l2().remove_keys(prefixed_any(ps.take(i + 1))));
                assert(old(cache).l3().remove_keys(prefixed_any(cps.take(i as int))).remove_keys(prefixed(cps[i as int]))
                    =~= old(cache).l3().remove_keys(prefixed_any(cps.take(i + 1))));
                let after = cache.l1();
                let kp = keys_with_prefix(before, ps[i as int]);
                assert(after == drop_keys(before, kp.to_set()));
                assert((4 - i) * after.len() <= (4 - i) * before.len()) by (nonlinear_arith)
                    requires after.len() <= before.len(), i < 5;
                assert forall|j: int, p: int| 0 <= j < after.len() && 0 <= p < i + 1 implies
                    !has_prefix(#[trigger] after[j].0, #[trigger] ps[p]) by {
                    if p < i {
                        let w = choose|w: int| 0 <= w < before.len() && before[w].0 == after[j].0;
                    }
                }
                assert forall|j: int| 0 <= j < s0.len()
                    && (forall|p: int| 0 <= p < 5 ==> !has_prefix(s0[j].0, #[trigger] ps[p]))
                    implies has_key(after, #[trigger] s0[j].0) by {
                    let w = choose|w: int| 0 <= w < before.len() && before[w].0 == s0[j].0;
                    assert(!has_prefix(s0[j].0, ps[i as int]));
                    crate::horizon_cache::cache::lemma_unprefixed_not_listed(before, ps[i as int], s0[j].0);
                    crate::horizon_cache::cache::lemma_drop_keys_keeps(before, kp.to_set(), w);
                }
            }
            i += 1;
        }
        proof {
            assert(ps.take(5) =~= ps);
            assert(cps.take(5) =~= cps);
        }
        InvalidationEvent { ledger_sequence, closed_at: unix_now_millis(), affected_prefixes: prefixes }
    }

    /// Evicts every cached entry of an account.
    pub fn invalidate_account(cache: &mut HorizonCache, account_id: &str)
        requires
            old(cache).wf(),
            old(cache).stats_view().total_evictions + old(cache).l1().len() <= u64::MAX,
        ensures
            HorizonCache::evict_by_prefix_post(*old(cache), *final(cache), "accounts:"@ + account_id@),
    {
        let prefix = concat2("accounts:", account_id);
        cache.evict_by_prefix(prefix.as_str());
    }
}

} // verus!
