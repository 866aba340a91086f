//! Prometheus counters of the Horizon query cache.

use vstd::prelude::*;
use crate::text::owned;
use crate::metrics::{
    CounterFamily, LabelKey, bumped, counter_family_inc, counter_family_new, counter_family_values,
    label_key, no_counters,
};

verus! {

/// The label set of [`HorizonCacheLabels`].
pub open spec fn horizon_cache_key(namespace: Seq<char>, node: Seq<char>, layer: Seq<char>) -> LabelKey {
    seq![("namespace"@, namespace), ("node"@, node), ("layer"@, layer)]
}

/// Labels of the cache counters: the node and the cache layer.
#[derive(Clone, Debug, PartialEq, Eq, Hash)]
pub struct HorizonCacheLabels {
    pub namespace: String,
    pub node: String,
    pub layer: String,
}

impl HorizonCacheLabels {
    /// The label set these labels encode to.
    pub open spec fn key(&self) -> LabelKey {
        horizon_cache_key(self.namespace@, self.node@, self.layer@)
    }

    /// The labels as `(name, value)` pairs in field order.
    pub fn label_pairs(&self) -> (r: Vec<(String, String)>)
        ensures
            label_key(r@) == self.key(),
    {
        let mut v: Vec<(String, String)> = Vec::new();
        v.push((owned("namespace"), owned(self.namespace.as_str())));
        v.push((owned("node"), owned(self.node.as_str())));
        v.push((owned("layer"), owned(self.layer.as_str())));
        assert(label_key(v@) =~= self.key());
        v
    }
}

/// The hit and miss counters of the cache, per node and layer.
pub struct HorizonCacheMetrics {
    hits: CounterFamily,
    misses: CounterFamily,
}

impl HorizonCacheMetrics {
    /// Hit counts by label set.
    pub closed spec fn hits(&self) -> Map<LabelKey, u64> {
        counter_family_values(self.hits)
    }

    /// Miss counts by label set.
    pub closed spec fn misses(&self) -> Map<LabelKey, u64> {
        counter_family_values(self.misses)
    }

    /// Counters with no label set used yet.
    pub fn new() -> (m: HorizonCacheMetrics)
        ensures
            m.hits() == no_counters(),
            m.misses() == no_counters(),
    {
        HorizonCacheMetrics { hits: counter_family_new(), misses: counter_family_new() }
    }
}

/// Counts one cache hit on `layer` of `node`.
pub fn record_cache_hit(m: &mut HorizonCacheMetrics, namespace: &str, node: &str, layer: &str)
    ensures
        final(m).hits() == bumped(old(m).hits(), horizon_cache_key(namespace@, node@, layer@)),
        final(m).misses() == old(m).misses(),
{
    let labels = HorizonCacheLabels { namespace: owned(namespace), node: owned(node), layer: owned(layer) };
    counter_family_inc(&mut m.hits, labels.label_pairs());
}

/// Counts one cache miss on `layer` of `node`.
pub fn record_cache_miss(m: &mut HorizonCacheMetrics, namespace: &str, node: &str, layer: &str)
    ensures
        final(m).misses() == bumped(old(m).misses(), horizon_cache_key(namespace@, node@, layer@)),
        final(m).hits() == old(m).hits(),
{
    let labels = HorizonCacheLabels { namespace: owned(namespace), node: owned(node), layer: owned(layer) };
    counter_family_inc(&mut m.misses, labels.label_pairs());
}

} // verus!
