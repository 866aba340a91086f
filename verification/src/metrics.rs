//! Prometheus metrics of the operator.
//!
//! Every metric lives in one [`OperatorMetrics`] value, whose abstract view
//! ([`MetricsView`]) holds, for each label family, the map from label sets to
//! the current value. Each recording function states exactly which entry it
//! changes. Histograms and floating-point gauges are not held here.

use vstd::prelude::*;
use std::sync::atomic::{AtomicI64, AtomicU64};
use prometheus_client::metrics::family::Family;
use prometheus_client::metrics::gauge::Gauge;
use prometheus_client::metrics::counter::Counter;
use prometheus_client::registry::Registry;
use crate::text::{owned, str_eq};

verus! {

/// `prometheus_client`'s gauge, held opaquely.
#[verifier::external_type_specification]
#[verifier::external_body]
#[verifier::reject_recursive_types(N)]
#[verifier::reject_recursive_types(A)]
pub struct ExGauge<N, A>(Gauge<N, A>);

/// `prometheus_client`'s counter, held opaquely.
#[verifier::external_type_specification]
#[verifier::external_body]
#[verifier::reject_recursive_types(N)]
#[verifier::reject_recursive_types(A)]
pub struct ExCounter<N, A>(Counter<N, A>);

/// `prometheus_client`'s registry, held opaquely.
#[verifier::external_type_specification]
#[verifier::external_body]
pub struct ExRegistry(Registry);

/// A label set as Prometheus encodes it: `(label name, label value)` pairs, in order.
pub type LabelKey = Seq<(Seq<char>, Seq<char>)>;

/// The abstract label set of a vector of label pairs.
pub open spec fn label_key(v: Seq<(String, String)>) -> LabelKey {
    v.map_values(|p: (String, String)| (p.0@, p.1@))
}

/// A family of `i64` gauges keyed by label set (`Family<_, Gauge<i64, AtomicI64>>`).
#[verifier::external_body]
pub struct GaugeFamily {
    inner: Family<Vec<(String, String)>, Gauge<i64, AtomicI64>>,
}

/// A family of `u64` counters keyed by label set (`Family<_, Counter<u64, AtomicU64>>`).
#[verifier::external_body]
pub struct CounterFamily {
    inner: Family<Vec<(String, String)>, Counter<u64, AtomicU64>>,
}

/// The gauges of a family: label set to current value. A label set that was
/// never used is absent.
pub uninterp spec fn gauge_family_values(f: GaugeFamily) -> Map<LabelKey, i64>;

/// The counters of a family: label set to current count.
pub uninterp spec fn counter_family_values(f: CounterFamily) -> Map<LabelKey, u64>;

/// The current value of a gauge.
pub uninterp spec fn gauge_value(g: Gauge<i64, AtomicI64>) -> i64;

/// The current count of a counter.
pub uninterp spec fn counter_value(c: Counter<u64, AtomicU64>) -> u64;

/// The metrics registered in a registry, in order: name and help text.
pub uninterp spec fn registered_metrics(r: Registry) -> Seq<(Seq<char>, Seq<char>)>;

/// A counter after one increment; the atomic add wraps at `u64::MAX`.
pub open spec fn wrapping_inc(c: u64) -> u64 {
    if c == u64::MAX { 0 } else { (c + 1) as u64 }
}

/// A counter after an increment by `d`, wrapping modulo 2^64.
pub open spec fn wrapping_add(c: u64, d: u64) -> u64 {
    if c + d > u64::MAX { (c + d - 0x1_0000_0000_0000_0000) as u64 } else { (c + d) as u64 }
}

/// The count under `k`, 0 when the label set was never used.
pub open spec fn count_of(m: Map<LabelKey, u64>, k: LabelKey) -> u64 {
    if m.contains_key(k) { m[k] } else { 0 }
}

/// The counter family `m` after one increment of the counter under `k`.
pub open spec fn bumped(m: Map<LabelKey, u64>, k: LabelKey) -> Map<LabelKey, u64> {
    m.insert(k, wrapping_inc(count_of(m, k)))
}

/// A gauge family with no gauge.
pub open spec fn no_gauges() -> Map<LabelKey, i64> {
    Map::empty()
}

/// A counter family with no counter.
pub open spec fn no_counters() -> Map<LabelKey, u64> {
    Map::empty()
}

/// `Family::default` for gauges: a family with no gauge yet.
#[verifier::external_body]
fn gauge_family_new() -> (fam: GaugeFamily)
    ensures
        gauge_family_values(fam) == no_gauges(),
{
    GaugeFamily { inner: Family::default() }
}

/// `Family::default` for counters: a family with no counter yet.
#[verifier::external_body]
pub(crate) fn counter_family_new() -> (fam: CounterFamily)
    ensures
        counter_family_values(fam) == no_counters(),
{
    CounterFamily { inner: Family::default() }
}

/// `Family::get_or_create` then `Gauge::set`: the gauge under `labels`, made
/// at 0 when absent, takes the value `v`; no other gauge changes.
#[verifier::external_body]
fn gauge_family_set(f: &mut GaugeFamily, labels: Vec<(String, String)>, v: i64)
    ensures
        gauge_family_values(*final(f)) == gauge_family_values(*old(f)).insert(label_key(labels@), v),
{
    f.inner.get_or_create(&labels).set(v);
}

/// `Family::get_or_create` then `Counter::inc`: the counter under `labels`,
/// made at 0 when absent, goes up by one (the atomic add wraps); no other
/// counter changes.
#[verifier::external_body]
pub(crate) fn counter_family_inc(f: &mut CounterFamily, labels: Vec<(String, String)>)
    ensures
        counter_family_values(*final(f)) == bumped(counter_family_values(*old(f)), label_key(labels@)),
{
    f.inner.get_or_create(&labels).inc();
}

/// `Gauge::default`: a gauge at 0.
#[verifier::external_body]
fn gauge_new() -> (g: Gauge<i64, AtomicI64>)
    ensures
        gauge_value(g) == 0,
{
    Gauge::default()
}

/// `Counter::default`: a counter at 0.
#[verifier::external_body]
fn counter_new() -> (c: Counter<u64, AtomicU64>)
    ensures
        counter_value(c) == 0,
{
    Counter::default()
}

/// `Gauge::set`: the gauge takes the value `v`.
#[verifier::external_body]
fn gauge_set(g: &mut Gauge<i64, AtomicI64>, v: i64)
    ensures
        gauge_value(*final(g)) == v,
{
    g.set(v);
}

/// `Gauge::get`: the current value.
#[verifier::external_body]
fn gauge_get(g: &Gauge<i64, AtomicI64>) -> (r: i64)
    ensures
        r == gauge_value(*g),
{
    g.get()
}

/// `Counter::inc_by`: the count goes up by `d` (the atomic add wraps).
#[verifier::external_body]
fn counter_inc_by(c: &mut Counter<u64, AtomicU64>, d: u64)
    ensures
        counter_value(*final(c)) == wrapping_add(counter_value(*old(c)), d),
{
    c.inc_by(d);
}

/// `Registry::register` of a gauge family: its name and help text (to which
/// the registry adds a full stop) go after those already registered.
#[verifier::external_body]
fn register_gauge_family(r: &mut Registry, name: &str, help: &str, f: &GaugeFamily)
    ensures
        registered_metrics(*final(r)) == registered_metrics(*old(r)).push((name@, help@ + "."@)),
{
    r.register(name, help, f.inner.clone());
}

/// `Registry::register` of a counter family, as [`register_gauge_family`].
#[verifier::external_body]
fn register_counter_family(r: &mut Registry, name: &str, help: &str, f: &CounterFamily)
    ensures
        registered_metrics(*final(r)) == registered_metrics(*old(r)).push((name@, help@ + "."@)),
{
    r.register(name, help, f.inner.clone());
}

/// `Registry::register` of a single gauge, as [`register_gauge_family`].
#[verifier::external_body]
fn register_gauge(r: &mut Registry, name: &str, help: &str, g: &Gauge<i64, AtomicI64>)
    ensures
        registered_metrics(*final(r)) == registered_metrics(*old(r)).push((name@, help@ + "."@)),
{
    r.register(name, help, g.clone());
}

/// `Registry::register` of a single counter, as [`register_gauge_family`].
#[verifier::external_body]
fn register_counter(r: &mut Registry, name: &str, help: &str, c: &Counter<u64, AtomicU64>)
    ensures
        registered_metrics(*final(r)) == registered_metrics(*old(r)).push((name@, help@ + "."@)),
{
    r.register(name, help, c.clone());
}

/// The label set of [`ReactiveLabels`].
pub open spec fn reactive_key(namespace: Seq<char>, name: Seq<char>) -> LabelKey {
    seq![
        ("namespace"@, namespace),
        ("name"@, name),
    ]
}

/// Labels of the reactive-update counters.
#[derive(Clone, Debug, PartialEq, Eq, Hash)]
pub struct ReactiveLabels {
    pub namespace: String,
    pub name: String,
}

impl ReactiveLabels {
    /// The label set these labels encode to.
    pub open spec fn key(&self) -> LabelKey {
        reactive_key(self.namespace@, self.name@)
    }

    /// The labels as `(name, value)` pairs in field order.
    pub fn label_pairs(&self) -> (r: Vec<(String, String)>)
        ensures
            label_key(r@) == self.key(),
    {
        let mut v: Vec<(String, String)> = Vec::new();
        v.push((owned("namespace"), owned(self.namespace.as_str())));
        v.push((owned("name"), owned(self.name.as_str())));
        assert(label_key(v@) =~= self.key());
        v
    }
}

/// The label set of [`NodeLabels`].
pub open spec fn node_key(namespace: Seq<char>, name: Seq<char>, node_type: Seq<char>, network: Seq<char>, hardware_generation: Seq<char>) -> LabelKey {
    seq![
        ("namespace"@, namespace),
        ("name"@, name),
        ("node_type"@, node_type),
        ("network"@, network),
        ("hardware_generation"@, hardware_generation),
    ]
}

/// Labels of the per-node gauges.
#[derive(Clone, Debug, PartialEq, Eq, Hash)]
pub struct NodeLabels {
    pub namespace: String,
    pub name: String,
    pub node_type: String,
    pub network: String,
    pub hardware_generation: String,
}

impl NodeLabels {
    /// The label set these labels encode to.
    pub open spec fn key(&self) -> LabelKey {
        node_key(self.namespace@, self.name@, self.node_type@, self.network@, self.hardware_generation@)
    }

    /// The labels as `(name, value)` pairs in field order.
    pub fn label_pairs(&self) -> (r: Vec<(String, String)>)
        ensures
            label_key(r@) == self.key(),
    {
        let mut v: Vec<(String, String)> = Vec::new();
        v.push((owned("namespace"), owned(self.namespace.as_str())));
        v.push((owned("name"), owned(self.name.as_str())));
        v.push((owned("node_type"), owned(self.node_type.as_str())));
        v.push((owned("network"), owned(self.network.as_str())));
        v.push((owned("hardware_generation"), owned(self.hardware_generation.as_str())));
        assert(label_key(v@) =~= self.key());
        v
    }
}

/// The label set of [`ReconcileLabels`].
pub open spec fn reconcile_key(controller: Seq<char>) -> LabelKey {
    seq![
        ("controller"@, controller),
    ]
}

/// Labels of the reconcile-duration histograms.
#[derive(Clone, Debug, PartialEq, Eq, Hash)]
pub struct ReconcileLabels {
    pub controller: String,
}

impl ReconcileLabels {
    /// The label set these labels encode to.
    pub open spec fn key(&self) -> LabelKey {
        reconcile_key(self.controller@)
    }

    /// The labels as `(name, value)` pairs in field order.
    pub fn label_pairs(&self) -> (r: Vec<(String, String)>)
        ensures
            label_key(r@) == self.key(),
    {
        let mut v: Vec<(String, String)> = Vec::new();
        v.push((owned("controller"), owned(self.controller.as_str())));
        assert(label_key(v@) =~= self.key());
        v
    }
}

/// The label set of [`ErrorLabels`].
pub open spec fn error_key(controller: Seq<char>, kind: Seq<char>) -> LabelKey {
    seq![
        ("controller"@, controller),
        ("kind"@, kind),
    ]
}

/// Labels of the reconcile-error counters: controller name and error kind.
#[derive(Clone, Debug, PartialEq, Eq, Hash)]
pub struct ErrorLabels {
    pub controller: String,
    pub kind: String,
}

impl ErrorLabels {
    /// The label set these labels encode to.
    pub open spec fn key(&self) -> LabelKey {
        error_key(self.controller@, self.kind@)
    }

    /// The labels as `(name, value)` pairs in field order.
    pub fn label_pairs(&self) -> (r: Vec<(String, String)>)
        ensures
            label_key(r@) == self.key(),
    {
        let mut v: Vec<(String, String)> = Vec::new();
        v.push((owned("controller"), owned(self.controller.as_str())));
        v.push((owned("kind"), owned(self.kind.as_str())));
        assert(label_key(v@) =~= self.key());
        v
    }
}

/// The label set of [`SorobanLabels`].
pub open spec fn soroban_key(namespace: Seq<char>, name: Seq<char>, network: Seq<char>, contract_id: Seq<char>) -> LabelKey {
    seq![
        ("namespace"@, namespace),
        ("name"@, name),
        ("network"@, network),
        ("contract_id"@, contract_id),
    ]
}

/// Labels of the Soroban contract metrics.
#[derive(Clone, Debug, PartialEq, Eq, Hash)]
pub struct SorobanLabels {
    pub namespace: String,
    pub name: String,
    pub network: String,
    pub contract_id: String,
}

impl SorobanLabels {
    /// The label set these labels encode to.
    pub open spec fn key(&self) -> LabelKey {
        soroban_key(self.namespace@, self.name@, self.network@, self.contract_id@)
    }

    /// The labels as `(name, value)` pairs in field order.
    pub fn label_pairs(&self) -> (r: Vec<(String, String)>)
        ensures
            label_key(r@) == self.key(),
    {
        let mut v: Vec<(String, String)> = Vec::new();
        v.push((owned("namespace"), owned(self.namespace.as_str())));
        v.push((owned("name"), owned(self.name.as_str())));
        v.push((owned("network"), owned(self.network.as_str())));
        v.push((owned("contract_id"), owned(self.contract_id.as_str())));
        assert(label_key(v@) =~= self.key());
        v
    }
}

/// The label set of [`ContractInvocationLabels`].
pub open spec fn contract_invocation_key(namespace: Seq<char>, name: Seq<char>, network: Seq<char>, contract_type: Seq<char>) -> LabelKey {
    seq![
        ("namespace"@, namespace),
        ("name"@, name),
        ("network"@, network),
        ("contract_type"@, contract_type),
    ]
}

/// Labels of the contract-invocation counter.
#[derive(Clone, Debug, PartialEq, Eq, Hash)]
pub struct ContractInvocationLabels {
    pub namespace: String,
    pub name: String,
    pub network: String,
    pub contract_type: String,
}

impl ContractInvocationLabels {
    /// The label set these labels encode to.
    pub open spec fn key(&self) -> LabelKey {
        contract_invocation_key(self.namespace@, self.name@, self.network@, self.contract_type@)
    }

    /// The labels as `(name, value)` pairs in field order.
    pub fn label_pairs(&self) -> (r: Vec<(String, String)>)
        ensures
            label_key(r@) == self.key(),
    {
        let mut v: Vec<(String, String)> = Vec::new();
        v.push((owned("namespace"), owned(self.namespace.as_str())));
        v.push((owned("name"), owned(self.name.as_str())));
        v.push((owned("network"), owned(self.network.as_str())));
        v.push((owned("contract_type"), owned(self.contract_type.as_str())));
        assert(label_key(v@) =~= self.key());
        v
    }
}

/// The label set of [`TransactionResultLabels`].
pub open spec fn transaction_result_key(namespace: Seq<char>, name: Seq<char>, network: Seq<char>, result: Seq<char>) -> LabelKey {
    seq![
        ("namespace"@, namespace),
        ("name"@, name),
        ("network"@, network),
        ("result"@, result),
    ]
}

/// Labels of the transaction-result counter; `result` is "success" or "failed".
#[derive(Clone, Debug, PartialEq, Eq, Hash)]
pub struct TransactionResultLabels {
    pub namespace: String,
    pub name: String,
    pub network: String,
    pub result: String,
}

impl TransactionResultLabels {
    /// The label set these labels encode to.
    pub open spec fn key(&self) -> LabelKey {
        transaction_result_key(self.namespace@, self.name@, self.network@, self.result@)
    }

    /// The labels as `(name, value)` pairs in field order.
    pub fn label_pairs(&self) -> (r: Vec<(String, String)>)
        ensures
            label_key(r@) == self.key(),
    {
        let mut v: Vec<(String, String)> = Vec::new();
        v.push((owned("namespace"), owned(self.namespace.as_str())));
        v.push((owned("name"), owned(self.name.as_str())));
        v.push((owned("network"), owned(self.network.as_str())));
        v.push((owned("result"), owned(self.result.as_str())));
        assert(label_key(v@) =~= self.key());
        v
    }
}

/// The label set of [`HorizonMigrationLabels`].
pub open spec fn horizon_migration_key(namespace: Seq<char>, name: Seq<char>, network: Seq<char>, status: Seq<char>) -> LabelKey {
    seq![
        ("namespace"@, namespace),
        ("name"@, name),
        ("network"@, network),
        ("status"@, status),
    ]
}

/// Labels of the Horizon migration metrics.
#[derive(Clone, Debug, PartialEq, Eq, Hash)]
pub struct HorizonMigrationLabels {
    pub namespace: String,
    pub name: String,
    pub network: String,
    pub status: String,
}

impl HorizonMigrationLabels {
    /// The label set these labels encode to.
    pub open spec fn key(&self) -> LabelKey {
        horizon_migration_key(self.namespace@, self.name@, self.network@, self.status@)
    }

    /// The labels as `(name, value)` pairs in field order.
    pub fn label_pairs(&self) -> (r: Vec<(String, String)>)
        ensures
            label_key(r@) == self.key(),
    {
        let mut v: Vec<(String, String)> = Vec::new();
        v.push((owned("namespace"), owned(self.namespace.as_str())));
        v.push((owned("name"), owned(self.name.as_str())));
        v.push((owned("network"), owned(self.network.as_str())));
        v.push((owned("status"), owned(self.status.as_str())));
        assert(label_key(v@) =~= self.key());
        v
    }
}

/// The label set of [`DRDrillLabels`].
pub open spec fn dr_drill_key(namespace: Seq<char>, name: Seq<char>, status: Seq<char>) -> LabelKey {
    seq![
        ("namespace"@, namespace),
        ("name"@, name),
        ("status"@, status),
    ]
}

/// Labels of the disaster-recovery drill metrics.
#[derive(Clone, Debug, PartialEq, Eq, Hash)]
pub struct DRDrillLabels {
    pub namespace: String,
    pub name: String,
    pub status: String,
}

impl DRDrillLabels {
    /// The label set these labels encode to.
    pub open spec fn key(&self) -> LabelKey {
        dr_drill_key(self.namespace@, self.name@, self.status@)
    }

    /// The labels as `(name, value)` pairs in field order.
    pub fn label_pairs(&self) -> (r: Vec<(String, String)>)
        ensures
            label_key(r@) == self.key(),
    {
        let mut v: Vec<(String, String)> = Vec::new();
        v.push((owned("namespace"), owned(self.namespace.as_str())));
        v.push((owned("name"), owned(self.name.as_str())));
        v.push((owned("status"), owned(self.status.as_str())));
        assert(label_key(v@) =~= self.key());
        v
    }
}

/// The label set of [`OperatorInfoLabels`].
pub open spec fn operator_info_key(version: Seq<char>, git_sha: Seq<char>, rust_version: Seq<char>) -> LabelKey {
    seq![
        ("version"@, version),
        ("git_sha"@, git_sha),
        ("rust_version"@, rust_version),
    ]
}

/// Build information of the operator.
#[derive(Clone, Debug, PartialEq, Eq, Hash)]
pub struct OperatorInfoLabels {
    pub version: String,
    pub git_sha: String,
    pub rust_version: String,
}

impl OperatorInfoLabels {
    /// The label set these labels encode to.
    pub open spec fn key(&self) -> LabelKey {
        operator_info_key(self.version@, self.git_sha@, self.rust_version@)
    }

    /// The labels as `(name, value)` pairs in field order.
    pub fn label_pairs(&self) -> (r: Vec<(String, String)>)
        ensures
            label_key(r@) == self.key(),
    {
        let mut v: Vec<(String, String)> = Vec::new();
        v.push((owned("version"), owned(self.version.as_str())));
        v.push((owned("git_sha"), owned(self.git_sha.as_str())));
        v.push((owned("rust_version"), owned(self.rust_version.as_str())));
        assert(label_key(v@) =~= self.key());
        v
    }
}

/// The label set of [`ObservabilitySourceLabels`].
pub open spec fn observability_source_key(source: Seq<char>) -> LabelKey {
    seq![
        ("source"@, source),
    ]
}

/// Labels of the ingested-events counter.
#[derive(Clone, Debug, PartialEq, Eq, Hash)]
pub struct ObservabilitySourceLabels {
    pub source: String,
}

impl ObservabilitySourceLabels {
    /// The label set these labels encode to.
    pub open spec fn key(&self) -> LabelKey {
        observability_source_key(self.source@)
    }

    /// The labels as `(name, value)` pairs in field order.
    pub fn label_pairs(&self) -> (r: Vec<(String, String)>)
        ensures
            label_key(r@) == self.key(),
    {
        let mut v: Vec<(String, String)> = Vec::new();
        v.push((owned("source"), owned(self.source.as_str())));
        assert(label_key(v@) =~= self.key());
        v
    }
}

/// The label set of [`ObservabilityAnomalyLabels`].
pub open spec fn observability_anomaly_key(anomaly_type: Seq<char>, metric_name: Seq<char>) -> LabelKey {
    seq![
        ("anomaly_type"@, anomaly_type),
        ("metric_name"@, metric_name),
    ]
}

/// Labels of the anomalies counter.
#[derive(Clone, Debug, PartialEq, Eq, Hash)]
pub struct ObservabilityAnomalyLabels {
    pub anomaly_type: String,
    pub metric_name: String,
}

impl ObservabilityAnomalyLabels {
    /// The label set these labels encode to.
    pub open spec fn key(&self) -> LabelKey {
        observability_anomaly_key(self.anomaly_type@, self.metric_name@)
    }

    /// The labels as `(name, value)` pairs in field order.
    pub fn label_pairs(&self) -> (r: Vec<(String, String)>)
        ensures
            label_key(r@) == self.key(),
    {
        let mut v: Vec<(String, String)> = Vec::new();
        v.push((owned("anomaly_type"), owned(self.anomaly_type.as_str())));
        v.push((owned("metric_name"), owned(self.metric_name.as_str())));
        assert(label_key(v@) =~= self.key());
        v
    }
}

/// The label set of [`ObservabilityCorrelationLabels`].
pub open spec fn observability_correlation_key(correlation_type: Seq<char>) -> LabelKey {
    seq![
        ("correlation_type"@, correlation_type),
    ]
}

/// Labels of the correlations counter.
#[derive(Clone, Debug, PartialEq, Eq, Hash)]
pub struct ObservabilityCorrelationLabels {
    pub correlation_type: String,
}

impl ObservabilityCorrelationLabels {
    /// The label set these labels encode to.
    pub open spec fn key(&self) -> LabelKey {
        observability_correlation_key(self.correlation_type@)
    }

    /// The labels as `(name, value)` pairs in field order.
    pub fn label_pairs(&self) -> (r: Vec<(String, String)>)
        ensures
            label_key(r@) == self.key(),
    {
        let mut v: Vec<(String, String)> = Vec::new();
        v.push((owned("correlation_type"), owned(self.correlation_type.as_str())));
        assert(label_key(v@) =~= self.key());
        v
    }
}

/// The label set of [`ObservabilityBaselineLabels`].
pub open spec fn observability_baseline_key(metric_name: Seq<char>) -> LabelKey {
    seq![
        ("metric_name"@, metric_name),
    ]
}

/// Labels of the baseline-samples gauge.
#[derive(Clone, Debug, PartialEq, Eq, Hash)]
pub struct ObservabilityBaselineLabels {
    pub metric_name: String,
}

impl ObservabilityBaselineLabels {
    /// The label set these labels encode to.
    pub open spec fn key(&self) -> LabelKey {
        observability_baseline_key(self.metric_name@)
    }

    /// The labels as `(name, value)` pairs in field order.
    pub fn label_pairs(&self) -> (r: Vec<(String, String)>)
        ensures
            label_key(r@) == self.key(),
    {
        let mut v: Vec<(String, String)> = Vec::new();
        v.push((owned("metric_name"), owned(self.metric_name.as_str())));
        assert(label_key(v@) =~= self.key());
        v
    }
}

/// Lifecycle phase of a Stellar node, as reported by its status.
#[derive(Debug, Clone, Copy, PartialEq, Eq, Structural)]
pub enum NodePhase {
    Pending,
    Creating,
    Running,
    Syncing,
    Ready,
    Failed,
    Degraded,
    Suspended,
    Remediating,
    Terminating,
}

/// The phase a status string names; an unknown string is `Pending`.
pub open spec fn phase_named(s: Seq<char>) -> NodePhase {
    if s == "Pending"@ {
        NodePhase::Pending
    } else if s == "Creating"@ {
        NodePhase::Creating
    } else if s == "Running"@ {
        NodePhase::Running
    } else if s == "Syncing"@ {
        NodePhase::Syncing
    } else if s == "Ready"@ {
        NodePhase::Ready
    } else if s == "Failed"@ {
        NodePhase::Failed
    } else if s == "Degraded"@ {
        NodePhase::Degraded
    } else if s == "Suspended"@ {
        NodePhase::Suspended
    } else if s == "Remediating"@ {
        NodePhase::Remediating
    } else if s == "Terminating"@ {
        NodePhase::Terminating
    } else {
        NodePhase::Pending
    }
}

/// The name of a phase.
pub open spec fn phase_name(p: NodePhase) -> Seq<char> {
    match p {
        NodePhase::Pending => "Pending"@,
        NodePhase::Creating => "Creating"@,
        NodePhase::Running => "Running"@,
        NodePhase::Syncing => "Syncing"@,
        NodePhase::Ready => "Ready"@,
        NodePhase::Failed => "Failed"@,
        NodePhase::Degraded => "Degraded"@,
        NodePhase::Suspended => "Suspended"@,
        NodePhase::Remediating => "Remediating"@,
        NodePhase::Terminating => "Terminating"@,
    }
}

/// The gauge value of a phase: 0=Pending, 1=Creating, 2=Running, 3=Syncing,
/// 4=Ready, 5=Failed, 6=Degraded, 7=Suspended, 8=Remediating, 9=Terminating.
pub open spec fn phase_value(p: NodePhase) -> i64 {
    match p {
        NodePhase::Pending => 0,
        NodePhase::Creating => 1,
        NodePhase::Running => 2,
        NodePhase::Syncing => 3,
        NodePhase::Ready => 4,
        NodePhase::Failed => 5,
        NodePhase::Degraded => 6,
        NodePhase::Suspended => 7,
        NodePhase::Remediating => 8,
        NodePhase::Terminating => 9,
    }
}

impl NodePhase {
    /// Parses a phase name; an unknown name is `Pending`.
    pub fn parse_phase(s: &str) -> (r: NodePhase)
        ensures
            r == phase_named(s@),
    {
        if str_eq(s, "Pending") {
            NodePhase::Pending
        } else if str_eq(s, "Creating") {
            NodePhase::Creating
        } else if str_eq(s, "Running") {
            NodePhase::Running
        } else if str_eq(s, "Syncing") {
            NodePhase::Syncing
        } else if str_eq(s, "Ready") {
            NodePhase::Ready
        } else if str_eq(s, "Failed") {
            NodePhase::Failed
        } else if str_eq(s, "Degraded") {
            NodePhase::Degraded
        } else if str_eq(s, "Suspended") {
            NodePhase::Suspended
        } else if str_eq(s, "Remediating") {
            NodePhase::Remediating
        } else if str_eq(s, "Terminating") {
            NodePhase::Terminating
        } else {
            NodePhase::Pending
        }
    }

    /// The phase's name, as it is displayed.
    pub fn name(&self) -> (r: &'static str)
        ensures
            r@ == phase_name(*self),
    {
        match self {
            NodePhase::Pending => "Pending",
            NodePhase::Creating => "Creating",
            NodePhase::Running => "Running",
            NodePhase::Syncing => "Syncing",
            NodePhase::Ready => "Ready",
            NodePhase::Failed => "Failed",
            NodePhase::Degraded => "Degraded",
            NodePhase::Suspended => "Suspended",
            NodePhase::Remediating => "Remediating",
            NodePhase::Terminating => "Terminating",
        }
    }

    /// The phase's gauge value.
    pub fn value(&self) -> (r: i64)
        ensures
            r == phase_value(*self),
    {
        match self {
            NodePhase::Pending => 0,
            NodePhase::Creating => 1,
            NodePhase::Running => 2,
            NodePhase::Syncing => 3,
            NodePhase::Ready => 4,
            NodePhase::Failed => 5,
            NodePhase::Degraded => 6,
            NodePhase::Suspended => 7,
            NodePhase::Remediating => 8,
            NodePhase::Terminating => 9,
        }
    }
}

/// Parsing a phase's name gives the phase back.
pub proof fn law_phase_name_round_trip(p: NodePhase)
    ensures
        phase_named(phase_name(p)) == p,
{
    reveal_strlit("Pending");
    reveal_strlit("Creating");
    reveal_strlit("Running");
    reveal_strlit("Syncing");
    reveal_strlit("Ready");
    reveal_strlit("Failed");
    reveal_strlit("Degraded");
    reveal_strlit("Suspended");
    reveal_strlit("Remediating");
    reveal_strlit("Terminating");
    assert("Pending"@[0] == 'P' && "Pending"@[1] == 'e' && "Pending"@.len() == 7);
    assert("Creating"@[0] == 'C' && "Creating"@[1] == 'r' && "Creating"@.len() == 8);
    assert("Running"@[0] == 'R' && "Running"@[1] == 'u' && "Running"@.len() == 7);
    assert("Syncing"@[0] == 'S' && "Syncing"@[1] == 'y' && "Syncing"@.len() == 7);
    assert("Ready"@[0] == 'R' && "Ready"@[1] == 'e' && "Ready"@.len() == 5);
    assert("Failed"@[0] == 'F' && "Failed"@[1] == 'a' && "Failed"@.len() == 6);
    assert("Degraded"@[0] == 'D' && "Degraded"@[1] == 'e' && "Degraded"@.len() == 8);
    assert("Suspended"@[0] == 'S' && "Suspended"@[1] == 'u' && "Suspended"@.len() == 9);
    assert("Remediating"@[0] == 'R' && "Remediating"@[1] == 'e' && "Remediating"@.len() == 11);
    assert("Terminating"@[0] == 'T' && "Terminating"@[1] == 'e' && "Terminating"@.len() == 11);
}

/// The abstract state of [`OperatorMetrics`]: each metric's current values.
#[verifier::ext_equal]
pub struct MetricsView {
    pub reconcile_errors: Map<LabelKey, u64>,
    pub operator_reconcile_errors: Map<LabelKey, u64>,
    pub ledger_sequence: Map<LabelKey, i64>,
    pub ingestion_lag: Map<LabelKey, i64>,
    pub horizon_tps: Map<LabelKey, i64>,
    pub horizon_queue_length: Map<LabelKey, i64>,
    pub active_connections: Map<LabelKey, i64>,
    pub archive_ledger_lag: Map<LabelKey, i64>,
    pub node_sync_status: Map<LabelKey, i64>,
    pub node_up: Map<LabelKey, i64>,
    pub archive_integrity_status: Map<LabelKey, i64>,
    pub zk_archive_signature_valid: Map<LabelKey, i64>,
    pub zk_archive_chain_gaps: Map<LabelKey, i64>,
    pub reactive_status_updates: Map<LabelKey, u64>,
    pub api_polls_avoided: Map<LabelKey, u64>,
    pub quorum_critical_nodes: Map<LabelKey, i64>,
    pub quorum_min_overlap: Map<LabelKey, i64>,
    pub wasm_vm_memory: Map<LabelKey, i64>,
    pub contract_invocation_cpu: Map<LabelKey, i64>,
    pub contract_invocation_memory: Map<LabelKey, i64>,
    pub contract_invocations: Map<LabelKey, u64>,
    pub transaction_results: Map<LabelKey, u64>,
    pub host_function_calls: Map<LabelKey, u64>,
    pub horizon_migrations: Map<LabelKey, u64>,
    pub dr_drill_time_to_recovery: Map<LabelKey, i64>,
    pub pvc_disk_usage_percent: Map<LabelKey, i64>,
    pub pvc_expansion_total: Map<LabelKey, u64>,
    pub pvc_size_bytes: Map<LabelKey, i64>,
    pub pvc_expansion_count: Map<LabelKey, i64>,
    pub snapshot_integrity_status: Map<LabelKey, i64>,
    pub snapshot_integrity_check_duration_ms: Map<LabelKey, i64>,
    pub operator_info: Map<LabelKey, i64>,
    pub operator_leader_status: i64,
    pub operator_uptime_seconds: u64,
    pub operator_ready_status: i64,
    pub observability_pipeline_up: i64,
    pub observability_events_ingested: Map<LabelKey, u64>,
    pub observability_anomalies: Map<LabelKey, u64>,
    pub observability_anomalies_active: i64,
    pub observability_alerts: u64,
    pub observability_alerts_active: i64,
    pub observability_alerts_deduplicated: u64,
    pub observability_alerts_resolved: u64,
    pub observability_correlations: Map<LabelKey, u64>,
    pub observability_incidents_open: i64,
    pub observability_incidents_resolved: u64,
    pub observability_predictive_alerts: u64,
    pub observability_baseline_samples: Map<LabelKey, i64>,
}

/// The metrics of a fresh [`OperatorMetrics`]: no label set used, every
/// single gauge and counter at 0.
pub open spec fn empty_metrics() -> MetricsView {
    MetricsView {
        reconcile_errors: Map::empty(),
        operator_reconcile_errors: Map::empty(),
        ledger_sequence: Map::empty(),
        ingestion_lag: Map::empty(),
        horizon_tps: Map::empty(),
        horizon_queue_length: Map::empty(),
        active_connections: Map::empty(),
        archive_ledger_lag: Map::empty(),
        node_sync_status: Map::empty(),
        node_up: Map::empty(),
        archive_integrity_status: Map::empty(),
        zk_archive_signature_valid: Map::empty(),
        zk_archive_chain_gaps: Map::empty(),
        reactive_status_updates: Map::empty(),
        api_polls_avoided: Map::empty(),
        quorum_critical_nodes: Map::empty(),
        quorum_min_overlap: Map::empty(),
        wasm_vm_memory: Map::empty(),
        contract_invocation_cpu: Map::empty(),
        contract_invocation_memory: Map::empty(),
        contract_invocations: Map::empty(),
        transaction_results: Map::empty(),
        host_function_calls: Map::empty(),
        horizon_migrations: Map::empty(),
        dr_drill_time_to_recovery: Map::empty(),
        pvc_disk_usage_percent: Map::empty(),
        pvc_expansion_total: Map::empty(),
        pvc_size_bytes: Map::empty(),
        pvc_expansion_count: Map::empty(),
        snapshot_integrity_status: Map::empty(),
        snapshot_integrity_check_duration_ms: Map::empty(),
        operator_info: Map::empty(),
        operator_leader_status: 0,
        operator_uptime_seconds: 0,
        operator_ready_status: 0,
        observability_pipeline_up: 0,
        observability_events_ingested: Map::empty(),
        observability_anomalies: Map::empty(),
        observability_anomalies_active: 0,
        observability_alerts: 0,
        observability_alerts_active: 0,
        observability_alerts_deduplicated: 0,
        observability_alerts_resolved: 0,
        observability_correlations: Map::empty(),
        observability_incidents_open: 0,
        observability_incidents_resolved: 0,
        observability_predictive_alerts: 0,
        observability_baseline_samples: Map::empty(),
    }
}

/// The metrics this library registers, in registration order: name and help
/// text, with the full stop the registry adds.
pub open spec fn registered_descriptors() -> Seq<(Seq<char>, Seq<char>)> {
    seq![
        ("stellar_reconcile_errors_total"@, "Total number of reconcile errors"@ + "."@),
        ("stellar_operator_reconcile_errors_total"@, "Total number of operator reconcile errors"@ + "."@),
        ("stellar_node_ledger_sequence"@, "Current ledger sequence number of the Stellar node"@ + "."@),
        ("stellar_node_ingestion_lag"@, "Lag between latest network ledger and node ledger"@ + "."@),
        ("stellar_horizon_tps"@, "Transactions per second for Horizon API nodes"@ + "."@),
        ("stellar_horizon_queue_length"@, "Pending Horizon request queue length"@ + "."@),
        ("stellar_node_active_connections"@, "Number of active peer connections"@ + "."@),
        ("stellar_archive_ledger_lag"@, "Ledgers the history archive is behind the validator node (0 = in-sync)"@ + "."@),
        ("stellar_node_sync_status"@, "Current sync status of the Stellar node (0=Pending, 1=Creating, 2=Running, 3=Syncing, 4=Ready, 5=Failed, 6=Degraded, 7=Suspended)"@ + "."@),
        ("stellar_node_up"@, "Binary indicator if node is up based on pod readiness (1=up, 0=down)"@ + "."@),
        ("stellar_archive_integrity_status"@, "Integrity status of the history archive (1 = healthy, 0 = corrupted)"@ + "."@),
        ("stellar_zk_archive_signature_valid"@, "Whether the ZK archive manifest signature is valid (1 = valid, 0 = invalid or missing)"@ + "."@),
        ("stellar_zk_archive_chain_gaps_total"@, "Number of checkpoint gaps detected in the ZK archive hash chain (0 = complete)"@ + "."@),
        ("stellar_reactive_status_updates_total"@, "Total number of reactive status updates from DB triggers"@ + "."@),
        ("stellar_api_polls_avoided_total"@, "Total number of API health check polls avoided"@ + "."@),
        ("stellar_quorum_critical_nodes"@, "Number of critical nodes in the quorum whose failure would break consensus"@ + "."@),
        ("stellar_quorum_min_overlap"@, "Minimum overlap count between quorum slices"@ + "."@),
        ("soroban_rpc_wasm_vm_memory_bytes"@, "Wasm VM memory usage in bytes"@ + "."@),
        ("soroban_rpc_contract_invocation_cpu_instructions"@, "CPU instructions consumed per contract invocation"@ + "."@),
        ("soroban_rpc_contract_invocation_memory_bytes"@, "Memory bytes consumed per contract invocation"@ + "."@),
        ("soroban_rpc_contract_invocations_total"@, "Total number of contract invocations by type"@ + "."@),
        ("soroban_rpc_transaction_result_total"@, "Total number of transactions by result (success/failed)"@ + "."@),
        ("soroban_rpc_host_function_calls_total"@, "Total number of host function calls"@ + "."@),
        ("stellar_horizon_migration_total"@, "Total number of Horizon database migration executions"@ + "."@),
        ("stellar_dr_drill_time_to_recovery_ms"@, "Time to Recovery (TTR) for DR drills in milliseconds"@ + "."@),
        ("stellar_pvc_disk_usage_percent"@, "PVC disk usage percentage (0-100)"@ + "."@),
        ("stellar_pvc_expansion_total"@, "Total number of PVC expansion events"@ + "."@),
        ("stellar_pvc_size_bytes"@, "Current PVC size in bytes"@ + "."@),
        ("stellar_pvc_expansion_count"@, "Number of expansions performed on this PVC"@ + "."@),
        ("stellar_snapshot_integrity_status"@, "Snapshot integrity check result (1 = pass, 0 = fail)"@ + "."@),
        ("stellar_snapshot_integrity_check_duration_ms"@, "Duration of snapshot integrity check in milliseconds"@ + "."@),
        ("stellar_operator_info"@, "Operator build information (version, git_sha, rust_version); always 1"@ + "."@),
        ("stellar_operator_leader_status"@, "1 if this operator instance is the current leader, 0 otherwise"@ + "."@),
        ("stellar_operator_uptime_seconds"@, "Total uptime of the operator process in seconds"@ + "."@),
        ("stellar_operator_ready"@, "1 if the operator is ready (K8s watch healthy and first reconcile complete), 0 otherwise"@ + "."@),
        ("stellar_observability_pipeline_up"@, "1 if the observability pipeline is running, 0 otherwise"@ + "."@),
        ("stellar_observability_events_ingested_total"@, "Total number of observability events ingested by source"@ + "."@),
        ("stellar_observability_anomalies_total"@, "Total number of anomalies detected by type"@ + "."@),
        ("stellar_observability_anomalies_active"@, "Number of currently active (unresolved) anomalies"@ + "."@),
        ("stellar_observability_alerts_total"@, "Total number of intelligent alerts generated"@ + "."@),
        ("stellar_observability_alerts_active"@, "Number of currently active (unresolved) alerts"@ + "."@),
        ("stellar_observability_alerts_deduplicated_total"@, "Total number of alerts suppressed by deduplication"@ + "."@),
        ("stellar_observability_alerts_resolved_total"@, "Total number of alerts resolved"@ + "."@),
        ("stellar_observability_correlations_total"@, "Total number of event correlations found by type"@ + "."@),
        ("stellar_observability_incidents_open"@, "Number of currently open incidents"@ + "."@),
        ("stellar_observability_incidents_resolved_total"@, "Total number of incidents resolved"@ + "."@),
        ("stellar_observability_predictive_alerts_total"@, "Total number of predictive alerts generated"@ + "."@),
        ("stellar_observability_baseline_samples"@, "Number of samples in the baseline for each metric"@ + "."@),
    ]
}

/// Every integer metric of the operator.
pub struct OperatorMetrics {
    reconcile_errors: CounterFamily,
    operator_reconcile_errors: CounterFamily,
    ledger_sequence: GaugeFamily,
    ingestion_lag: GaugeFamily,
    horizon_tps: GaugeFamily,
    horizon_queue_length: GaugeFamily,
    active_connections: GaugeFamily,
    archive_ledger_lag: GaugeFamily,
    node_sync_status: GaugeFamily,
    node_up: GaugeFamily,
    archive_integrity_status: GaugeFamily,
    zk_archive_signature_valid: GaugeFamily,
    zk_archive_chain_gaps: GaugeFamily,
    reactive_status_updates: CounterFamily,
    api_polls_avoided: CounterFamily,
    quorum_critical_nodes: GaugeFamily,
    quorum_min_overlap: GaugeFamily,
    wasm_vm_memory: GaugeFamily,
    contract_invocation_cpu: GaugeFamily,
    contract_invocation_memory: GaugeFamily,
    contract_invocations: CounterFamily,
    transaction_results: CounterFamily,
    host_function_calls: CounterFamily,
    horizon_migrations: CounterFamily,
    dr_drill_time_to_recovery: GaugeFamily,
    pvc_disk_usage_percent: GaugeFamily,
    pvc_expansion_total: CounterFamily,
    pvc_size_bytes: GaugeFamily,
    pvc_expansion_count: GaugeFamily,
    snapshot_integrity_status: GaugeFamily,
    snapshot_integrity_check_duration_ms: GaugeFamily,
    operator_info: GaugeFamily,
    operator_leader_status: Gauge<i64, AtomicI64>,
    operator_uptime_seconds: Counter<u64, AtomicU64>,
    operator_ready_status: Gauge<i64, AtomicI64>,
    observability_pipeline_up: Gauge<i64, AtomicI64>,
    observability_events_ingested: CounterFamily,
    observability_anomalies: CounterFamily,
    observability_anomalies_active: Gauge<i64, AtomicI64>,
    observability_alerts: Counter<u64, AtomicU64>,
    observability_alerts_active: Gauge<i64, AtomicI64>,
    observability_alerts_deduplicated: Counter<u64, AtomicU64>,
    observability_alerts_resolved: Counter<u64, AtomicU64>,
    observability_correlations: CounterFamily,
    observability_incidents_open: Gauge<i64, AtomicI64>,
    observability_incidents_resolved: Counter<u64, AtomicU64>,
    observability_predictive_alerts: Counter<u64, AtomicU64>,
    observability_baseline_samples: GaugeFamily,
}

impl View for OperatorMetrics {
    type V = MetricsView;

    closed spec fn view(&self) -> MetricsView {
        MetricsView {
            reconcile_errors: counter_family_values(self.reconcile_errors),
            operator_reconcile_errors: counter_family_values(self.operator_reconcile_errors),
            ledger_sequence: gauge_family_values(self.ledger_sequence),
            ingestion_lag: gauge_family_values(self.ingestion_lag),
            horizon_tps: gauge_family_values(self.horizon_tps),
            horizon_queue_length: gauge_family_values(self.horizon_queue_length),
            active_connections: gauge_family_values(self.active_connections),
            archive_ledger_lag: gauge_family_values(self.archive_ledger_lag),
            node_sync_status: gauge_family_values(self.node_sync_status),
            node_up: gauge_family_values(self.node_up),
            archive_integrity_status: gauge_family_values(self.archive_integrity_status),
            zk_archive_signature_valid: gauge_family_values(self.zk_archive_signature_valid),
            zk_archive_chain_gaps: gauge_family_values(self.zk_archive_chain_gaps),
            reactive_status_updates: counter_family_values(self.reactive_status_updates),
            api_polls_avoided: counter_family_values(self.api_polls_avoided),
            quorum_critical_nodes: gauge_family_values(self.quorum_critical_nodes),
            quorum_min_overlap: gauge_family_values(self.quorum_min_overlap),
            wasm_vm_memory: gauge_family_values(self.wasm_vm_memory),
            contract_invocation_cpu: gauge_family_values(self.contract_invocation_cpu),
            contract_invocation_memory: gauge_family_values(self.contract_invocation_memory),
            contract_invocations: counter_family_values(self.contract_invocations),
            transaction_results: counter_family_values(self.transaction_results),
            host_function_calls: counter_family_values(self.host_function_calls),
            horizon_migrations: counter_family_values(self.horizon_migrations),
            dr_drill_time_to_recovery: gauge_family_values(self.dr_drill_time_to_recovery),
            pvc_disk_usage_percent: gauge_family_values(self.pvc_disk_usage_percent),
            pvc_expansion_total: counter_family_values(self.pvc_expansion_total),
            pvc_size_bytes: gauge_family_values(self.pvc_size_bytes),
            pvc_expansion_count: gauge_family_values(self.pvc_expansion_count),
            snapshot_integrity_status: gauge_family_values(self.snapshot_integrity_status),
            snapshot_integrity_check_duration_ms: gauge_family_values(self.snapshot_integrity_check_duration_ms),
            operator_info: gauge_family_values(self.operator_info),
            operator_leader_status: gauge_value(self.operator_leader_status),
            operator_uptime_seconds: counter_value(self.operator_uptime_seconds),
            operator_ready_status: gauge_value(self.operator_ready_status),
            observability_pipeline_up: gauge_value(self.observability_pipeline_up),
            observability_events_ingested: counter_family_values(self.observability_events_ingested),
            observability_anomalies: counter_family_values(self.observability_anomalies),
            observability_anomalies_active: gauge_value(self.observability_anomalies_active),
            observability_alerts: counter_value(self.observability_alerts),
            observability_alerts_active: gauge_value(self.observability_alerts_active),
            observability_alerts_deduplicated: counter_value(self.observability_alerts_deduplicated),
            observability_alerts_resolved: counter_value(self.observability_alerts_resolved),
            observability_correlations: counter_family_values(self.observability_correlations),
            observability_incidents_open: gauge_value(self.observability_incidents_open),
            observability_incidents_resolved: counter_value(self.observability_incidents_resolved),
            observability_predictive_alerts: counter_value(self.observability_predictive_alerts),
            observability_baseline_samples: gauge_family_values(self.observability_baseline_samples),
        }
    }
}

impl OperatorMetrics {
    /// Fresh metrics: no label set used, every single gauge and counter at 0.
    pub fn new() -> (m: OperatorMetrics)
        ensures
            m@ == empty_metrics(),
    {
        OperatorMetrics {
            reconcile_errors: counter_family_new(),
            operator_reconcile_errors: counter_family_new(),
            ledger_sequence: gauge_family_new(),
            ingestion_lag: gauge_family_new(),
            horizon_tps: gauge_family_new(),
            horizon_queue_length: gauge_family_new(),
            active_connections: gauge_family_new(),
            archive_ledger_lag: gauge_family_new(),
            node_sync_status: gauge_family_new(),
            node_up: gauge_family_new(),
            archive_integrity_status: gauge_family_new(),
            zk_archive_signature_valid: gauge_family_new(),
            zk_archive_chain_gaps: gauge_family_new(),
            reactive_status_updates: counter_family_new(),
            api_polls_avoided: counter_family_new(),
            quorum_critical_nodes: gauge_family_new(),
            quorum_min_overlap: gauge_family_new(),
            wasm_vm_memory: gauge_family_new(),
            contract_invocation_cpu: gauge_family_new(),
            contract_invocation_memory: gauge_family_new(),
            contract_invocations: counter_family_new(),
            transaction_results: counter_family_new(),
            host_function_calls: counter_family_new(),
            horizon_migrations: counter_family_new(),
            dr_drill_time_to_recovery: gauge_family_new(),
            pvc_disk_usage_percent: gauge_family_new(),
            pvc_expansion_total: counter_family_new(),
            pvc_size_bytes: gauge_family_new(),
            pvc_expansion_count: gauge_family_new(),
            snapshot_integrity_status: gauge_family_new(),
            snapshot_integrity_check_duration_ms: gauge_family_new(),
            operator_info: gauge_family_new(),
            operator_leader_status: gauge_new(),
            operator_uptime_seconds: counter_new(),
            operator_ready_status: gauge_new(),
            observability_pipeline_up: gauge_new(),
            observability_events_ingested: counter_family_new(),
            observability_anomalies: counter_family_new(),
            observability_anomalies_active: gauge_new(),
            observability_alerts: counter_new(),
            observability_alerts_active: gauge_new(),
            observability_alerts_deduplicated: counter_new(),
            observability_alerts_resolved: counter_new(),
            observability_correlations: counter_family_new(),
            observability_incidents_open: gauge_new(),
            observability_incidents_resolved: counter_new(),
            observability_predictive_alerts: counter_new(),
            observability_baseline_samples: gauge_family_new(),
        }
    }

    /// Registers every metric with `registry`, after those already there.
    #[verifier::rlimit(40)]
    pub fn register(&self, registry: &mut Registry)
        ensures
            registered_metrics(*final(registry)) == registered_metrics(*old(registry)) + registered_descriptors(),
    {
        let ghost r0 = registered_metrics(*registry);
        register_counter_family(registry, "stellar_reconcile_errors_total", "Total number of reconcile errors", &self.reconcile_errors);
        register_counter_family(registry, "stellar_operator_reconcile_errors_total", "Total number of operator reconcile errors", &self.operator_reconcile_errors);
        register_gauge_family(registry, "stellar_node_ledger_sequence", "Current ledger sequence number of the Stellar node", &self.ledger_sequence);
        register_gauge_family(registry, "stellar_node_ingestion_lag", "Lag between latest network ledger and node ledger", &self.ingestion_lag);
        register_gauge_family(registry, "stellar_horizon_tps", "Transactions per second for Horizon API nodes", &self.horizon_tps);
        register_gauge_family(registry, "stellar_horizon_queue_length", "Pending Horizon request queue length", &self.horizon_queue_length);
        register_gauge_family(registry, "stellar_node_active_connections", "Number of active peer connections", &self.active_connections);
        register_gauge_family(registry, "stellar_archive_ledger_lag", "Ledgers the history archive is behind the validator node (0 = in-sync)", &self.archive_ledger_lag);
        register_gauge_family(registry, "stellar_node_sync_status", "Current sync status of the Stellar node (0=Pending, 1=Creating, 2=Running, 3=Syncing, 4=Ready, 5=Failed, 6=Degraded, 7=Suspended)", &self.node_sync_status);
        register_gauge_family(registry, "stellar_node_up", "Binary indicator if node is up based on pod readiness (1=up, 0=down)", &self.node_up);
        register_gauge_family(registry, "stellar_archive_integrity_status", "Integrity status of the history archive (1 = healthy, 0 = corrupted)", &self.archive_integrity_status);
        register_gauge_family(registry, "stellar_zk_archive_signature_valid", "Whether the ZK archive manifest signature is valid (1 = valid, 0 = invalid or missing)", &self.zk_archive_signature_valid);
        register_gauge_family(registry, "stellar_zk_archive_chain_gaps_total", "Number of checkpoint gaps detected in the ZK archive hash chain (0 = complete)", &self.zk_archive_chain_gaps);
        register_counter_family(registry, "stellar_reactive_status_updates_total", "Total number of reactive status updates from DB triggers", &self.reactive_status_updates);
        register_counter_family(registry, "stellar_api_polls_avoided_total", "Total number of API health check polls avoided", &self.api_polls_avoided);
        register_gauge_family(registry, "stellar_quorum_critical_nodes", "Number of critical nodes in the quorum whose failure would break consensus", &self.quorum_critical_nodes);
        register_gauge_family(registry, "stellar_quorum_min_overlap", "Minimum overlap count between quorum slices", &self.quorum_min_overlap);
        register_gauge_family(registry, "soroban_rpc_wasm_vm_memory_bytes", "Wasm VM memory usage in bytes", &self.wasm_vm_memory);
        register_gauge_family(registry, "soroban_rpc_contract_invocation_cpu_instructions", "CPU instructions consumed per contract invocation", &self.contract_invocation_cpu);
        register_gauge_family(registry, "soroban_rpc_contract_invocation_memory_bytes", "Memory bytes consumed per contract invocation", &self.contract_invocation_memory);
        register_counter_family(registry, "soroban_rpc_contract_invocations_total", "Total number of contract invocations by type", &self.contract_invocations);
        register_counter_family(registry, "soroban_rpc_transaction_result_total", "Total number of transactions by result (success/failed)", &self.transaction_results);
        register_counter_family(registry, "soroban_rpc_host_function_calls_total", "Total number of host function calls", &self.host_function_calls);
        register_counter_family(registry, "stellar_horizon_migration_total", "Total number of Horizon database migration executions", &self.horizon_migrations);
        register_gauge_family(registry, "stellar_dr_drill_time_to_recovery_ms", "Time to Recovery (TTR) for DR drills in milliseconds", &self.dr_drill_time_to_recovery);
        register_gauge_family(registry, "stellar_pvc_disk_usage_percent", "PVC disk usage percentage (0-100)", &self.pvc_disk_usage_percent);
        register_counter_family(registry, "stellar_pvc_expansion_total", "Total number of PVC expansion events", &self.pvc_expansion_total);
        register_gauge_family(registry, "stellar_pvc_size_bytes", "Current PVC size in bytes", &self.pvc_size_bytes);
        register_gauge_family(registry, "stellar_pvc_expansion_count", "Number of expansions performed on this PVC", &self.pvc_expansion_count);
        register_gauge_family(registry, "stellar_snapshot_integrity_status", "Snapshot integrity check result (1 = pass, 0 = fail)", &self.snapshot_integrity_status);
        register_gauge_family(registry, "stellar_snapshot_integrity_check_duration_ms", "Duration of snapshot integrity check in milliseconds", &self.snapshot_integrity_check_duration_ms);
        register_gauge_family(registry, "stellar_operator_info", "Operator build information (version, git_sha, rust_version); always 1", &self.operator_info);
        register_gauge(registry, "stellar_operator_leader_status", "1 if this operator instance is the current leader, 0 otherwise", &self.operator_leader_status);
        register_counter(registry, "stellar_operator_uptime_seconds", "Total uptime of the operator process in seconds", &self.operator_uptime_seconds);
        register_gauge(registry, "stellar_operator_ready", "1 if the operator is ready (K8s watch healthy and first reconcile complete), 0 otherwise", &self.operator_ready_status);
        register_gauge(registry, "stellar_observability_pipeline_up", "1 if the observability pipeline is running, 0 otherwise", &self.observability_pipeline_up);
        register_counter_family(registry, "stellar_observability_events_ingested_total", "Total number of observability events ingested by source", &self.observability_events_ingested);
        register_counter_family(registry, "stellar_observability_anomalies_total", "Total number of anomalies detected by type", &self.observability_anomalies);
        register_gauge(registry, "stellar_observability_anomalies_active", "Number of currently active (unresolved) anomalies", &self.observability_anomalies_active);
        register_counter(registry, "stellar_observability_alerts_total", "Total number of intelligent alerts generated", &self.observability_alerts);
        register_gauge(registry, "stellar_observability_alerts_active", "Number of currently active (unresolved) alerts", &self.observability_alerts_active);
        register_counter(registry, "stellar_observability_alerts_deduplicated_total", "Total number of alerts suppressed by deduplication", &self.observability_alerts_deduplicated);
        register_counter(registry, "stellar_observability_alerts_resolved_total", "Total number of alerts resolved", &self.observability_alerts_resolved);
        register_counter_family(registry, "stellar_observability_correlations_total", "Total number of event correlations found by type", &self.observability_correlations);
        register_gauge(registry, "stellar_observability_incidents_open", "Number of currently open incidents", &self.observability_incidents_open);
        register_counter(registry, "stellar_observability_incidents_resolved_total", "Total number of incidents resolved", &self.observability_incidents_resolved);
        register_counter(registry, "stellar_observability_predictive_alerts_total", "Total number of predictive alerts generated", &self.observability_predictive_alerts);
        register_gauge_family(registry, "stellar_observability_baseline_samples", "Number of samples in the baseline for each metric", &self.observability_baseline_samples);
        assert(registered_metrics(*registry) =~= r0 + registered_descriptors());
    }
}

/// Counts one reconcile error of `controller`, of kind `kind`.
pub fn inc_reconcile_error(m: &mut OperatorMetrics, controller: &str, kind: &str)
    ensures
        final(m)@ == (MetricsView {
            reconcile_errors: bumped(old(m)@.reconcile_errors, error_key(controller@, kind@)),
            ..old(m)@
        }),
{
    let labels = ErrorLabels { controller: owned(controller), kind: owned(kind) };
    counter_family_inc(&mut m.reconcile_errors, labels.label_pairs());
}

/// Counts one operator reconcile error of `controller`, of kind `kind`.
pub fn inc_operator_reconcile_error(m: &mut OperatorMetrics, controller: &str, kind: &str)
    ensures
        final(m)@ == (MetricsView {
            operator_reconcile_errors: bumped(old(m)@.operator_reconcile_errors, error_key(controller@, kind@)),
            ..old(m)@
        }),
{
    let labels = ErrorLabels { controller: owned(controller), kind: owned(kind) };
    counter_family_inc(&mut m.operator_reconcile_errors, labels.label_pairs());
}

/// Counts one reactive status update of a node.
pub fn inc_reactive_status_update(m: &mut OperatorMetrics, namespace: &str, name: &str)
    ensures
        final(m)@ == (MetricsView {
            reactive_status_updates: bumped(old(m)@.reactive_status_updates, reactive_key(namespace@, name@)),
            ..old(m)@
        }),
{
    let labels = ReactiveLabels { namespace: owned(namespace), name: owned(name) };
    counter_family_inc(&mut m.reactive_status_updates, labels.label_pairs());
}

/// Counts one API poll avoided thanks to a reactive update.
pub fn inc_api_polls_avoided(m: &mut OperatorMetrics, namespace: &str, name: &str)
    ensures
        final(m)@ == (MetricsView {
            api_polls_avoided: bumped(old(m)@.api_polls_avoided, reactive_key(namespace@, name@)),
            ..old(m)@
        }),
{
    let labels = ReactiveLabels { namespace: owned(namespace), name: owned(name) };
    counter_family_inc(&mut m.api_polls_avoided, labels.label_pairs());
}

/// Records a node's ledger sequence (stored as `i64`, as Rust's `as` converts it).
pub fn set_ledger_sequence(m: &mut OperatorMetrics, namespace: &str, name: &str, node_type: &str, network: &str, hardware_generation: &str, sequence: u64)
    ensures
        final(m)@ == (MetricsView {
            ledger_sequence: old(m)@.ledger_sequence.insert(node_key(namespace@, name@, node_type@, network@, hardware_generation@), sequence as i64),
            ..old(m)@
        }),
{
    let labels = NodeLabels { namespace: owned(namespace), name: owned(name), node_type: owned(node_type), network: owned(network), hardware_generation: owned(hardware_generation) };
    gauge_family_set(&mut m.ledger_sequence, labels.label_pairs(), sequence as i64);
}

/// Records a node's ingestion lag.
pub fn set_ingestion_lag(m: &mut OperatorMetrics, namespace: &str, name: &str, node_type: &str, network: &str, hardware_generation: &str, lag: i64)
    ensures
        final(m)@ == (MetricsView {
            ingestion_lag: old(m)@.ingestion_lag.insert(node_key(namespace@, name@, node_type@, network@, hardware_generation@), lag),
            ..old(m)@
        }),
{
    let labels = NodeLabels { namespace: owned(namespace), name: owned(name), node_type: owned(node_type), network: owned(network), hardware_generation: owned(hardware_generation) };
    gauge_family_set(&mut m.ingestion_lag, labels.label_pairs(), lag);
}

/// Records a node's sync status: the gauge value of the phase `phase` names
/// (an unknown name counts as `Pending`).
pub fn set_node_sync_status(m: &mut OperatorMetrics, namespace: &str, name: &str, node_type: &str, network: &str, hardware_generation: &str, phase: &str)
    ensures
        final(m)@ == (MetricsView {
            node_sync_status: old(m)@.node_sync_status.insert(
                node_key(namespace@, name@, node_type@, network@, hardware_generation@),
                phase_value(phase_named(phase@)),
            ),
            ..old(m)@
        }),
{
    let labels = NodeLabels { namespace: owned(namespace), name: owned(name), node_type: owned(node_type), network: owned(network), hardware_generation: owned(hardware_generation) };
    let phase_value = NodePhase::parse_phase(phase).value();
    gauge_family_set(&mut m.node_sync_status, labels.label_pairs(), phase_value);
}

/// Records whether a node is up: 1 when `up`, else 0.
pub fn set_node_up(m: &mut OperatorMetrics, namespace: &str, name: &str, node_type: &str, network: &str, hardware_generation: &str, up: bool)
    ensures
        final(m)@ == (MetricsView {
            node_up: old(m)@.node_up.insert(node_key(namespace@, name@, node_type@, network@, hardware_generation@), if up { 1i64 } else { 0i64 }),
            ..old(m)@
        }),
{
    let labels = NodeLabels { namespace: owned(namespace), name: owned(name), node_type: owned(node_type), network: owned(network), hardware_generation: owned(hardware_generation) };
    gauge_family_set(&mut m.node_up, labels.label_pairs(), if up { 1 } else { 0 });
}

/// Records how many ledgers the history archive is behind the node.
pub fn set_archive_ledger_lag(m: &mut OperatorMetrics, namespace: &str, name: &str, node_type: &str, network: &str, hardware_generation: &str, lag: i64)
    ensures
        final(m)@ == (MetricsView {
            archive_ledger_lag: old(m)@.archive_ledger_lag.insert(node_key(namespace@, name@, node_type@, network@, hardware_generation@), lag),
            ..old(m)@
        }),
{
    let labels = NodeLabels { namespace: owned(namespace), name: owned(name), node_type: owned(node_type), network: owned(network), hardware_generation: owned(hardware_generation) };
    gauge_family_set(&mut m.archive_ledger_lag, labels.label_pairs(), lag);
}

/// Records the history archive's integrity: 1 when `healthy`, else 0.
pub fn set_archive_integrity_status(m: &mut OperatorMetrics, namespace: &str, name: &str, node_type: &str, network: &str, hardware_generation: &str, healthy: bool)
    ensures
        final(m)@ == (MetricsView {
            archive_integrity_status: old(m)@.archive_integrity_status.insert(node_key(namespace@, name@, node_type@, network@, hardware_generation@), if healthy { 1i64 } else { 0i64 }),
            ..old(m)@
        }),
{
    let labels = NodeLabels { namespace: owned(namespace), name: owned(name), node_type: owned(node_type), network: owned(network), hardware_generation: owned(hardware_generation) };
    gauge_family_set(&mut m.archive_integrity_status, labels.label_pairs(), if healthy { 1 } else { 0 });
}

/// Records a Horizon node's transactions per second.
pub fn set_horizon_tps(m: &mut OperatorMetrics, namespace: &str, name: &str, node_type: &str, network: &str, hardware_generation: &str, tps: i64)
    ensures
        final(m)@ == (MetricsView {
            horizon_tps: old(m)@.horizon_tps.insert(node_key(namespace@, name@, node_type@, network@, hardware_generation@), tps),
            ..old(m)@
        }),
{
    let labels = NodeLabels { namespace: owned(namespace), name: owned(name), node_type: owned(node_type), network: owned(network), hardware_generation: owned(hardware_generation) };
    gauge_family_set(&mut m.horizon_tps, labels.label_pairs(), tps);
}

/// Records a Horizon node's pending request queue length.
pub fn set_horizon_queue_length(m: &mut OperatorMetrics, namespace: &str, name: &str, node_type: &str, network: &str, hardware_generation: &str, queue_length: i64)
    ensures
        final(m)@ == (MetricsView {
            horizon_queue_length: old(m)@.horizon_queue_length.insert(node_key(namespace@, name@, node_type@, network@, hardware_generation@), queue_length),
            ..old(m)@
        }),
{
    let labels = NodeLabels { namespace: owned(namespace), name: owned(name), node_type: owned(node_type), network: owned(network), hardware_generation: owned(hardware_generation) };
    gauge_family_set(&mut m.horizon_queue_length, labels.label_pairs(), queue_length);
}

/// Records a node's active peer connections.
pub fn set_active_connections(m: &mut OperatorMetrics, namespace: &str, name: &str, node_type: &str, network: &str, hardware_generation: &str, connections: i64)
    ensures
        final(m)@ == (MetricsView {
            active_connections: old(m)@.active_connections.insert(node_key(namespace@, name@, node_type@, network@, hardware_generation@), connections),
            ..old(m)@
        }),
{
    let labels = NodeLabels { namespace: owned(namespace), name: owned(name), node_type: owned(node_type), network: owned(network), hardware_generation: owned(hardware_generation) };
    gauge_family_set(&mut m.active_connections, labels.label_pairs(), connections);
}

/// Records a contract's Wasm VM memory in bytes.
pub fn set_wasm_vm_memory(m: &mut OperatorMetrics, namespace: &str, name: &str, network: &str, contract_id: &str, memory_bytes: i64)
    ensures
        final(m)@ == (MetricsView {
            wasm_vm_memory: old(m)@.wasm_vm_memory.insert(soroban_key(namespace@, name@, network@, contract_id@), memory_bytes),
            ..old(m)@
        }),
{
    let labels = SorobanLabels { namespace: owned(namespace), name: owned(name), network: owned(network), contract_id: owned(contract_id) };
    gauge_family_set(&mut m.wasm_vm_memory, labels.label_pairs(), memory_bytes);
}

/// Records the CPU instructions of a contract invocation.
pub fn set_contract_invocation_cpu(m: &mut OperatorMetrics, namespace: &str, name: &str, network: &str, contract_id: &str, cpu_instructions: i64)
    ensures
        final(m)@ == (MetricsView {
            contract_invocation_cpu: old(m)@.contract_invocation_cpu.insert(soroban_key(namespace@, name@, network@, contract_id@), cpu_instructions),
            ..old(m)@
        }),
{
    let labels = SorobanLabels { namespace: owned(namespace), name: owned(name), network: owned(network), contract_id: owned(contract_id) };
    gauge_family_set(&mut m.contract_invocation_cpu, labels.label_pairs(), cpu_instructions);
}

/// Records the memory bytes of a contract invocation.
pub fn set_contract_invocation_memory(m: &mut OperatorMetrics, namespace: &str, name: &str, network: &str, contract_id: &str, memory_bytes: i64)
    ensures
        final(m)@ == (MetricsView {
            contract_invocation_memory: old(m)@.contract_invocation_memory.insert(soroban_key(namespace@, name@, network@, contract_id@), memory_bytes),
            ..old(m)@
        }),
{
    let labels = SorobanLabels { namespace: owned(namespace), name: owned(name), network: owned(network), contract_id: owned(contract_id) };
    gauge_family_set(&mut m.contract_invocation_memory, labels.label_pairs(), memory_bytes);
}

/// Counts one contract invocation of type `contract_type`.
pub fn inc_contract_invocation(m: &mut OperatorMetrics, namespace: &str, name: &str, network: &str, contract_type: &str)
    ensures
        final(m)@ == (MetricsView {
            contract_invocations: bumped(old(m)@.contract_invocations, contract_invocation_key(namespace@, name@, network@, contract_type@)),
            ..old(m)@
        }),
{
    let labels = ContractInvocationLabels { namespace: owned(namespace), name: owned(name), network: owned(network), contract_type: owned(contract_type) };
    counter_family_inc(&mut m.contract_invocations, labels.label_pairs());
}

/// The result label of a transaction outcome.
pub open spec fn result_label(success: bool) -> Seq<char> {
    if success { "success"@ } else { "failed"@ }
}

/// Counts one transaction, labelled "success" or "failed".
pub fn inc_transaction_result(m: &mut OperatorMetrics, namespace: &str, name: &str, network: &str, success: bool)
    ensures
        final(m)@ == (MetricsView {
            transaction_results: bumped(
                old(m)@.transaction_results,
                transaction_result_key(namespace@, name@, network@, result_label(success)),
            ),
            ..old(m)@
        }),
{
    let result = if success { owned("success") } else { owned("failed") };
    let labels = TransactionResultLabels { namespace: owned(namespace), name: owned(name), network: owned(network), result };
    counter_family_inc(&mut m.transaction_results, labels.label_pairs());
}

/// Counts one Horizon database migration with outcome `status`.
pub fn inc_horizon_migration_total(m: &mut OperatorMetrics, namespace: &str, name: &str, network: &str, status: &str)
    ensures
        final(m)@ == (MetricsView {
            horizon_migrations: bumped(old(m)@.horizon_migrations, horizon_migration_key(namespace@, name@, network@, status@)),
            ..old(m)@
        }),
{
    let labels = HorizonMigrationLabels { namespace: owned(namespace), name: owned(name), network: owned(network), status: owned(status) };
    counter_family_inc(&mut m.horizon_migrations, labels.label_pairs());
}

/// Counts one host function call of a contract.
pub fn inc_host_function_call(m: &mut OperatorMetrics, namespace: &str, name: &str, network: &str, contract_id: &str)
    ensures
        final(m)@ == (MetricsView {
            host_function_calls: bumped(old(m)@.host_function_calls, soroban_key(namespace@, name@, network@, contract_id@)),
            ..old(m)@
        }),
{
    let labels = SorobanLabels { namespace: owned(namespace), name: owned(name), network: owned(network), contract_id: owned(contract_id) };
    counter_family_inc(&mut m.host_function_calls, labels.label_pairs());
}

/// Records the number of critical nodes in a node's quorum.
pub fn set_quorum_critical_nodes(m: &mut OperatorMetrics, namespace: &str, name: &str, node_type: &str, network: &str, hardware_generation: &str, count: i64)
    ensures
        final(m)@ == (MetricsView {
            quorum_critical_nodes: old(m)@.quorum_critical_nodes.insert(node_key(namespace@, name@, node_type@, network@, hardware_generation@), count),
            ..old(m)@
        }),
{
    let labels = NodeLabels { namespace: owned(namespace), name: owned(name), node_type: owned(node_type), network: owned(network), hardware_generation: owned(hardware_generation) };
    gauge_family_set(&mut m.quorum_critical_nodes, labels.label_pairs(), count);
}

/// Records the minimum overlap between a node's quorum slices.
pub fn set_quorum_min_overlap(m: &mut OperatorMetrics, namespace: &str, name: &str, node_type: &str, network: &str, hardware_generation: &str, overlap: i64)
    ensures
        final(m)@ == (MetricsView {
            quorum_min_overlap: old(m)@.quorum_min_overlap.insert(node_key(namespace@, name@, node_type@, network@, hardware_generation@), overlap),
            ..old(m)@
        }),
{
    let labels = NodeLabels { namespace: owned(namespace), name: owned(name), node_type: owned(node_type), network: owned(network), hardware_generation: owned(hardware_generation) };
    gauge_family_set(&mut m.quorum_min_overlap, labels.label_pairs(), overlap);
}

/// Records the time to recovery of a disaster-recovery drill, in milliseconds.
pub fn set_dr_drill_time_to_recovery(m: &mut OperatorMetrics, namespace: &str, name: &str, status: &str, ttr_ms: i64)
    ensures
        final(m)@ == (MetricsView {
            dr_drill_time_to_recovery: old(m)@.dr_drill_time_to_recovery.insert(dr_drill_key(namespace@, name@, status@), ttr_ms),
            ..old(m)@
        }),
{
    let labels = DRDrillLabels { namespace: owned(namespace), name: owned(name), status: owned(status) };
    gauge_family_set(&mut m.dr_drill_time_to_recovery, labels.label_pairs(), ttr_ms);
}

/// Counts one observability event ingested from `source`.
pub fn inc_observability_event(m: &mut OperatorMetrics, source: &str)
    ensures
        final(m)@ == (MetricsView {
            observability_events_ingested: bumped(old(m)@.observability_events_ingested, observability_source_key(source@)),
            ..old(m)@
        }),
{
    let labels = ObservabilitySourceLabels { source: owned(source) };
    counter_family_inc(&mut m.observability_events_ingested, labels.label_pairs());
}

/// Counts one anomaly of type `anomaly_type` on `metric_name` and raises the
/// active-anomalies gauge by one.
pub fn inc_observability_anomaly(m: &mut OperatorMetrics, anomaly_type: &str, metric_name: &str)
    requires
        old(m)@.observability_anomalies_active < i64::MAX,
    ensures
        final(m)@ == (MetricsView {
            observability_anomalies: bumped(
                old(m)@.observability_anomalies,
                observability_anomaly_key(anomaly_type@, metric_name@),
            ),
            observability_anomalies_active: (old(m)@.observability_anomalies_active + 1) as i64,
            ..old(m)@
        }),
{
    let labels = ObservabilityAnomalyLabels { anomaly_type: owned(anomaly_type), metric_name: owned(metric_name) };
    counter_family_inc(&mut m.observability_anomalies, labels.label_pairs());
    let current = gauge_get(&m.observability_anomalies_active);
    gauge_set(&mut m.observability_anomalies_active, current + 1);
}

/// Counts one alert and raises the active-alerts gauge by one.
pub fn inc_observability_alert(m: &mut OperatorMetrics)
    requires
        old(m)@.observability_alerts_active < i64::MAX,
    ensures
        final(m)@ == (MetricsView {
            observability_alerts: wrapping_inc(old(m)@.observability_alerts),
            observability_alerts_active: (old(m)@.observability_alerts_active + 1) as i64,
            ..old(m)@
        }),
{
    counter_inc_by(&mut m.observability_alerts, 1);
    let current = gauge_get(&m.observability_alerts_active);
    gauge_set(&mut m.observability_alerts_active, current + 1);
}

/// Counts one alert suppressed by deduplication.
pub fn inc_observability_alert_deduplicated(m: &mut OperatorMetrics)
    ensures
        final(m)@ == (MetricsView {
            observability_alerts_deduplicated: wrapping_inc(old(m)@.observability_alerts_deduplicated),
            ..old(m)@
        }),
{
    counter_inc_by(&mut m.observability_alerts_deduplicated, 1);
}

/// Counts one resolved alert and lowers the active-alerts gauge by one, but
/// not below zero.
pub fn inc_observability_alert_resolved(m: &mut OperatorMetrics)
    requires
        old(m)@.observability_alerts_active > i64::MIN,
    ensures
        final(m)@ == (MetricsView {
            observability_alerts_resolved: wrapping_inc(old(m)@.observability_alerts_resolved),
            observability_alerts_active: if old(m)@.observability_alerts_active - 1 > 0 {
                (old(m)@.observability_alerts_active - 1) as i64
            } else {
                0i64
            },
            ..old(m)@
        }),
{
    counter_inc_by(&mut m.observability_alerts_resolved, 1);
    let current = gauge_get(&m.observability_alerts_active);
    let lowered = current - 1;
    gauge_set(&mut m.observability_alerts_active, if lowered > 0 { lowered } else { 0 });
}

/// Counts one event correlation of type `correlation_type`.
pub fn inc_observability_correlation(m: &mut OperatorMetrics, correlation_type: &str)
    ensures
        final(m)@ == (MetricsView {
            observability_correlations: bumped(old(m)@.observability_correlations, observability_correlation_key(correlation_type@)),
            ..old(m)@
        }),
{
    let labels = ObservabilityCorrelationLabels { correlation_type: owned(correlation_type) };
    counter_family_inc(&mut m.observability_correlations, labels.label_pairs());
}

/// Records the number of open incidents.
pub fn set_observability_incidents_open(m: &mut OperatorMetrics, count: i64)
    ensures
        final(m)@ == (MetricsView { observability_incidents_open: count, ..old(m)@ }),
{
    gauge_set(&mut m.observability_incidents_open, count);
}

/// Counts one resolved incident.
pub fn inc_observability_incident_resolved(m: &mut OperatorMetrics)
    ensures
        final(m)@ == (MetricsView {
            observability_incidents_resolved: wrapping_inc(old(m)@.observability_incidents_resolved),
            ..old(m)@
        }),
{
    counter_inc_by(&mut m.observability_incidents_resolved, 1);
}

/// Counts one predictive alert.
pub fn inc_observability_predictive_alert(m: &mut OperatorMetrics)
    ensures
        final(m)@ == (MetricsView {
            observability_predictive_alerts: wrapping_inc(old(m)@.observability_predictive_alerts),
            ..old(m)@
        }),
{
    counter_inc_by(&mut m.observability_predictive_alerts, 1);
}

/// Records the number of baseline samples of a metric.
pub fn set_observability_baseline_samples(m: &mut OperatorMetrics, metric_name: &str, count: i64)
    ensures
        final(m)@ == (MetricsView {
            observability_baseline_samples: old(m)@.observability_baseline_samples.insert(observability_baseline_key(metric_name@), count),
            ..old(m)@
        }),
{
    let labels = ObservabilityBaselineLabels { metric_name: owned(metric_name) };
    gauge_family_set(&mut m.observability_baseline_samples, labels.label_pairs(), count);
}

/// The build label value: the given one, or "unknown" when absent.
pub open spec fn or_unknown(v: Option<Seq<char>>) -> Seq<char> {
    match v {
        Some(s) => s,
        None => "unknown"@,
    }
}

/// Sets the operator information gauge to 1 under the build labels: the
/// package version, and the git revision and Rust version when known
/// ("unknown" otherwise).
pub fn init_operator_info(m: &mut OperatorMetrics, version: &str, git_sha: Option<&str>, rust_version: Option<&str>)
    ensures
        final(m)@ == (MetricsView {
            operator_info: old(m)@.operator_info.insert(
                operator_info_key(
                    version@,
                    or_unknown(match git_sha { Some(s) => Some(s@), None => None }),
                    or_unknown(match rust_version { Some(s) => Some(s@), None => None }),
                ),
                1,
            ),
            ..old(m)@
        }),
{
    let git_sha = match git_sha {
        Some(s) => owned(s),
        None => owned("unknown"),
    };
    let rust_version = match rust_version {
        Some(s) => owned(s),
        None => owned("unknown"),
    };
    let labels = OperatorInfoLabels { version: owned(version), git_sha, rust_version };
    gauge_family_set(&mut m.operator_info, labels.label_pairs(), 1);
}

/// Records whether this operator instance is the leader: 1 or 0.
pub fn set_leader_status(m: &mut OperatorMetrics, is_leader: bool)
    ensures
        final(m)@ == (MetricsView { operator_leader_status: if is_leader { 1i64 } else { 0i64 }, ..old(m)@ }),
{
    gauge_set(&mut m.operator_leader_status, if is_leader { 1 } else { 0 });
}

/// Adds `delta_secs` to the operator's uptime counter (the atomic add wraps).
pub fn inc_uptime_seconds(m: &mut OperatorMetrics, delta_secs: u64)
    ensures
        final(m)@ == (MetricsView {
            operator_uptime_seconds: wrapping_add(old(m)@.operator_uptime_seconds, delta_secs),
            ..old(m)@
        }),
{
    counter_inc_by(&mut m.operator_uptime_seconds, delta_secs);
}

/// Records whether the operator is ready: 1 or 0.
pub fn set_ready_status(m: &mut OperatorMetrics, ready: bool)
    ensures
        final(m)@ == (MetricsView { operator_ready_status: if ready { 1i64 } else { 0i64 }, ..old(m)@ }),
{
    gauge_set(&mut m.operator_ready_status, if ready { 1 } else { 0 });
}

/// Records whether a node's ZK archive manifest signature is valid: 1 or 0.
pub fn set_zk_archive_signature_valid(m: &mut OperatorMetrics, namespace: &str, name: &str, node_type: &str, network: &str, hardware_generation: &str, valid: bool)
    ensures
        final(m)@ == (MetricsView {
            zk_archive_signature_valid: old(m)@.zk_archive_signature_valid.insert(node_key(namespace@, name@, node_type@, network@, hardware_generation@), if valid { 1i64 } else { 0i64 }),
            ..old(m)@
        }),
{
    let labels = NodeLabels { namespace: owned(namespace), name: owned(name), node_type: owned(node_type), network: owned(network), hardware_generation: owned(hardware_generation) };
    gauge_family_set(&mut m.zk_archive_signature_valid, labels.label_pairs(), if valid { 1 } else { 0 });
}

/// Records the number of checkpoint gaps in a node's ZK archive hash chain (as `i64`, as Rust's `as` converts it).
pub fn set_zk_archive_chain_gaps(m: &mut OperatorMetrics, namespace: &str, name: &str, node_type: &str, network: &str, hardware_generation: &str, gap_count: usize)
    ensures
        final(m)@ == (MetricsView {
            zk_archive_chain_gaps: old(m)@.zk_archive_chain_gaps.insert(node_key(namespace@, name@, node_type@, network@, hardware_generation@), gap_count as i64),
            ..old(m)@
        }),
{
    let labels = NodeLabels { namespace: owned(namespace), name: owned(name), node_type: owned(node_type), network: owned(network), hardware_generation: owned(hardware_generation) };
    gauge_family_set(&mut m.zk_archive_chain_gaps, labels.label_pairs(), gap_count as i64);
}

/// Records a node's PVC disk usage, in percent.
pub fn set_pvc_disk_usage_percent(m: &mut OperatorMetrics, namespace: &str, name: &str, node_type: &str, network: &str, hardware_generation: &str, usage_percent: i64)
    ensures
        final(m)@ == (MetricsView {
            pvc_disk_usage_percent: old(m)@.pvc_disk_usage_percent.insert(node_key(namespace@, name@, node_type@, network@, hardware_generation@), usage_percent),
            ..old(m)@
        }),
{
    let labels = NodeLabels { namespace: owned(namespace), name: owned(name), node_type: owned(node_type), network: owned(network), hardware_generation: owned(hardware_generation) };
    gauge_family_set(&mut m.pvc_disk_usage_percent, labels.label_pairs(), usage_percent);
}

/// Counts one PVC expansion of a node.
pub fn increment_pvc_expansion_total(m: &mut OperatorMetrics, namespace: &str, name: &str, node_type: &str, network: &str, hardware_generation: &str)
    ensures
        final(m)@ == (MetricsView {
            pvc_expansion_total: bumped(old(m)@.pvc_expansion_total, node_key(namespace@, name@, node_type@, network@, hardware_generation@)),
            ..old(m)@
        }),
{
    let labels = NodeLabels { namespace: owned(namespace), name: owned(name), node_type: owned(node_type), network: owned(network), hardware_generation: owned(hardware_generation) };
    counter_family_inc(&mut m.pvc_expansion_total, labels.label_pairs());
}

/// Records the size of a node's PVC in bytes.
pub fn set_pvc_size_bytes(m: &mut OperatorMetrics, namespace: &str, name: &str, node_type: &str, network: &str, hardware_generation: &str, size_bytes: i64)
    ensures
        final(m)@ == (MetricsView {
            pvc_size_bytes: old(m)@.pvc_size_bytes.insert(node_key(namespace@, name@, node_type@, network@, hardware_generation@), size_bytes),
            ..old(m)@
        }),
{
    let labels = NodeLabels { namespace: owned(namespace), name: owned(name), node_type: owned(node_type), network: owned(network), hardware_generation: owned(hardware_generation) };
    gauge_family_set(&mut m.pvc_size_bytes, labels.label_pairs(), size_bytes);
}

/// Records how many times a node's PVC was expanded.
pub fn set_pvc_expansion_count(m: &mut OperatorMetrics, namespace: &str, name: &str, node_type: &str, network: &str, hardware_generation: &str, count: i64)
    ensures
        final(m)@ == (MetricsView {
            pvc_expansion_count: old(m)@.pvc_expansion_count.insert(node_key(namespace@, name@, node_type@, network@, hardware_generation@), count),
            ..old(m)@
        }),
{
    let labels = NodeLabels { namespace: owned(namespace), name: owned(name), node_type: owned(node_type), network: owned(network), hardware_generation: owned(hardware_generation) };
    gauge_family_set(&mut m.pvc_expansion_count, labels.label_pairs(), count);
}

/// Records the outcome of a snapshot integrity check under `labels`: the
/// status gauge at 1 when it passed (else 0), and its duration in milliseconds.
pub fn set_snapshot_integrity(m: &mut OperatorMetrics, labels: &NodeLabels, passed: bool, duration_ms: i64)
    ensures
        final(m)@ == (MetricsView {
            snapshot_integrity_status: old(m)@.snapshot_integrity_status.insert(labels.key(), if passed { 1i64 } else { 0i64 }),
            snapshot_integrity_check_duration_ms: old(m)@.snapshot_integrity_check_duration_ms.insert(labels.key(), duration_ms),
            ..old(m)@
        }),
{
    gauge_family_set(&mut m.snapshot_integrity_status, labels.label_pairs(), if passed { 1 } else { 0 });
    gauge_family_set(&mut m.snapshot_integrity_check_duration_ms, labels.label_pairs(), duration_ms);
}

} // verus!
