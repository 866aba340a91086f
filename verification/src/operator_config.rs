//! Operator runtime configuration: per-node-type resource defaults and the
//! reconciler's requeue and backoff settings.
//!
//! Precedence: StellarNode `spec.resources` > configured defaults (this
//! module) > hardcoded fallback.

use vstd::prelude::*;
use std::time::Duration;
use rand::Rng;
use crate::crd::{NodeType, ResourceRequirements, ResourceSpec};
use crate::text::owned;

verus! {

/// Per-node-type default resources.
///
/// `Default` uses empty cpu and memory strings, so that
/// [`OperatorConfig::defaults_for`] can tell "nothing configured" apart and
/// fall through to [`hardcoded_defaults`].
#[derive(Debug, Clone)]
pub struct NodeResourceDefaults {
    pub requests: ResourceSpec,
    pub limits: ResourceSpec,
}

/// An empty cpu/memory pair.
fn empty_spec() -> (r: ResourceSpec)
    ensures
        r.cpu@.len() == 0,
        r.memory@.len() == 0,
{
    ResourceSpec { cpu: String::new(), memory: String::new() }
}

impl Default for NodeResourceDefaults {
    fn default() -> (r: Self)
        ensures
            r.requests.cpu@.len() == 0,
            r.requests.memory@.len() == 0,
            r.limits.cpu@.len() == 0,
            r.limits.memory@.len() == 0,
    {
        NodeResourceDefaults { requests: empty_spec(), limits: empty_spec() }
    }
}

/// Default resources for each node type.
#[derive(Debug, Clone)]
pub struct DefaultResources {
    pub validator: NodeResourceDefaults,
    pub horizon: NodeResourceDefaults,
    pub soroban_rpc: NodeResourceDefaults,
}

/// Whether a node-type default holds nothing configured.
pub open spec fn unconfigured(d: NodeResourceDefaults) -> bool {
    d.requests.cpu@.len() == 0 && d.requests.memory@.len() == 0
        && d.limits.cpu@.len() == 0 && d.limits.memory@.len() == 0
}

impl Default for DefaultResources {
    fn default() -> (r: Self)
        ensures
            unconfigured(r.validator),
            unconfigured(r.horizon),
            unconfigured(r.soroban_rpc),
    {
        DefaultResources {
            validator: NodeResourceDefaults::default(),
            horizon: NodeResourceDefaults::default(),
            soroban_rpc: NodeResourceDefaults::default(),
        }
    }
}

/// Reconciler configuration for requeue intervals and backoff.
#[derive(Debug, Clone, Copy, PartialEq, Eq)]
pub struct ReconcilerConfig {
    /// Base requeue interval for healthy reconciliation loops (seconds).
    pub requeue_interval: u64,
    /// Base backoff duration for error retries (seconds).
    pub error_backoff_base: u64,
    /// Maximum backoff duration (seconds).
    pub max_backoff: u64,
    /// Whether backoff durations get random jitter.
    pub enable_jitter: bool,
}

fn default_requeue_interval() -> (r: u64)
    ensures
        r == 60,
{
    60
}

fn default_error_backoff_base() -> (r: u64)
    ensures
        r == 15,
{
    15
}

fn default_max_backoff() -> (r: u64)
    ensures
        r == 300,
{
    300
}

fn default_enable_jitter() -> (r: bool)
    ensures
        r,
{
    true
}

impl Default for ReconcilerConfig {
    fn default() -> (r: Self)
        ensures
            r.requeue_interval == 60,
            r.error_backoff_base == 15,
            r.max_backoff == 300,
            r.enable_jitter,
    {
        ReconcilerConfig {
            requeue_interval: default_requeue_interval(),
            error_backoff_base: default_error_backoff_base(),
            max_backoff: default_max_backoff(),
            enable_jitter: default_enable_jitter(),
        }
    }
}

/// `2^n`, saturating at `u64::MAX`.
pub open spec fn saturating_pow2(n: nat) -> u64
    decreases n,
{
    if n == 0 {
        1
    } else {
        let p = saturating_pow2((n - 1) as nat);
        if 2 * p > u64::MAX { u64::MAX } else { (2 * p) as u64 }
    }
}

/// `a * b`, saturating at `u64::MAX`.
pub open spec fn saturating_mul(a: u64, b: u64) -> u64 {
    if a * b > u64::MAX { u64::MAX } else { (a * b) as u64 }
}

/// The backoff before retry `retry_count` (0-based), before jitter:
/// `base * 2^retry_count`, saturating, capped at `max_backoff`.
pub open spec fn backoff_secs(c: ReconcilerConfig, retry_count: u32) -> u64 {
    let b = saturating_mul(c.error_backoff_base, saturating_pow2(retry_count as nat));
    if b < c.max_backoff { b } else { c.max_backoff }
}

/// The least jittered backoff: half of `b`, rounded down.
pub open spec fn jitter_low(b: u64) -> u64 {
    (b / 2) as u64
}

/// The greatest jittered backoff: one and a half times `b`, rounded down,
/// saturating at `u64::MAX`.
pub open spec fn jitter_high(b: u64) -> u64 {
    if b + b / 2 > u64::MAX { u64::MAX } else { (b + b / 2) as u64 }
}

/// A number of seconds held to the configured maximum backoff.
pub open spec fn capped_secs(c: ReconcilerConfig, secs: u64) -> u64 {
    if secs < c.max_backoff { secs } else { c.max_backoff }
}

/// `Duration::from_secs`: the duration of `secs` whole seconds.
pub uninterp spec fn duration_of_secs(secs: u64) -> Duration;

/// `Duration::from_secs(secs)`.
#[verifier::external_body]
fn duration_from_secs(secs: u64) -> (d: Duration)
    ensures
        d == duration_of_secs(secs),
{
    Duration::from_secs(secs)
}

/// `rand::thread_rng().gen_range(low..=high)`: a random integer between
/// `low` and `high` inclusive, drawn from the thread-local generator. Which
/// one is not stated.
#[verifier::external_body]
fn random_between(low: u64, high: u64) -> (r: u64)
    requires
        low <= high,
    ensures
        low <= r <= high,
{
    rand::thread_rng().gen_range(low..=high)
}

/// `a * b`, saturating at `u64::MAX` (`u64::saturating_mul`).
fn mul_saturating(a: u64, b: u64) -> (r: u64)
    ensures
        r == saturating_mul(a, b),
{
    match a.checked_mul(b) {
        Some(v) => v,
        None => u64::MAX,
    }
}

impl ReconcilerConfig {
    /// `2^n`, saturating at `u64::MAX` (`2u64.saturating_pow(n)`).
    fn pow2_saturating(n: u32) -> (r: u64)
        ensures
            r == saturating_pow2(n as nat),
    {
        let mut p: u64 = 1;
        let mut i: u32 = 0;
        while i < n
            invariant
                i <= n,
                p == saturating_pow2(i as nat),
            decreases n - i,
        {
            p = mul_saturating(p, 2);
            i += 1;
        }
        p
    }

    /// The backoff before retry `retry_count` (0-based), in seconds, before
    /// jitter: `error_backoff_base * 2^retry_count` (saturating), capped at
    /// `max_backoff`.
    pub fn backoff_secs(&self, retry_count: u32) -> (r: u64)
        ensures
            r == backoff_secs(*self, retry_count),
    {
        let b = mul_saturating(self.error_backoff_base, Self::pow2_saturating(retry_count));
        if b < self.max_backoff { b } else { self.max_backoff }
    }

    /// The wait before retry `retry_count`: the capped exponential backoff
    /// and, when jitter is enabled, a random value between 0.5x and 1.5x of
    /// it, never more than `max_backoff`, the maximum backoff.
    pub fn calculate_backoff(&self, retry_count: u32) -> (d: Duration)
        ensures
            !self.enable_jitter ==> d == duration_of_secs(backoff_secs(*self, retry_count)),
            self.enable_jitter ==> exists|s: u64|
                jitter_low(backoff_secs(*self, retry_count)) <= s <= jitter_high(backoff_secs(*self, retry_count))
                && d == #[trigger] duration_of_secs(capped_secs(*self, s)),
    {
        let b = self.backoff_secs(retry_count);
        if self.enable_jitter {
            let s = random_between(b / 2, b.saturating_add(b / 2));
            let capped = if s < self.max_backoff { s } else { self.max_backoff };
            let d = duration_from_secs(capped);
            assert(d == duration_of_secs(capped_secs(*self, s)));
            d
        } else {
            duration_from_secs(b)
        }
    }
}

/// Operator configuration file.
#[derive(Debug, Clone)]
pub struct OperatorConfig {
    pub default_resources: DefaultResources,
    pub reconciler: ReconcilerConfig,
}

impl Default for OperatorConfig {
    fn default() -> (r: Self)
        ensures
            unconfigured(r.default_resources.validator),
            unconfigured(r.default_resources.horizon),
            unconfigured(r.default_resources.soroban_rpc),
            r.reconciler.requeue_interval == 60,
            r.reconciler.error_backoff_base == 15,
            r.reconciler.max_backoff == 300,
            r.reconciler.enable_jitter,
    {
        OperatorConfig { default_resources: DefaultResources::default(), reconciler: ReconcilerConfig::default() }
    }
}

/// The configured defaults of a node type.
pub open spec fn defaults_of(c: DefaultResources, t: NodeType) -> NodeResourceDefaults {
    match t {
        NodeType::Validator => c.validator,
        NodeType::Horizon => c.horizon,
        NodeType::SorobanRpc => c.soroban_rpc,
    }
}

impl OperatorConfig {
    /// The configured defaults for `node_type`, or `None` when both the
    /// requests and the limits cpu strings are empty.
    pub fn defaults_for(&self, node_type: &NodeType) -> (r: Option<&NodeResourceDefaults>)
        ensures
            r == (if defaults_of(self.default_resources, *node_type).requests.cpu@.len() == 0
                && defaults_of(self.default_resources, *node_type).limits.cpu@.len() == 0 {
                None
            } else {
                Some(&defaults_of(self.default_resources, *node_type))
            }),
    {
        let d = match node_type {
            NodeType::Validator => &self.default_resources.validator,
            NodeType::Horizon => &self.default_resources.horizon,
            NodeType::SorobanRpc => &self.default_resources.soroban_rpc,
        };
        if d.requests.cpu.as_str().is_empty() && d.limits.cpu.as_str().is_empty() {
            None
        } else {
            Some(d)
        }
    }
}

/// The last-resort resources of a node type: requests cpu, requests memory,
/// limits cpu, limits memory.
pub open spec fn hardcoded_spec(t: NodeType) -> (Seq<char>, Seq<char>, Seq<char>, Seq<char>) {
    match t {
        NodeType::Validator => ("500m"@, "1Gi"@, "2"@, "4Gi"@),
        NodeType::Horizon => ("250m"@, "512Mi"@, "2"@, "4Gi"@),
        NodeType::SorobanRpc => ("500m"@, "2Gi"@, "4"@, "8Gi"@),
    }
}

fn requirements(req_cpu: &str, req_mem: &str, lim_cpu: &str, lim_mem: &str) -> (r: ResourceRequirements)
    ensures
        r.requests.cpu@ == req_cpu@,
        r.requests.memory@ == req_mem@,
        r.limits.cpu@ == lim_cpu@,
        r.limits.memory@ == lim_mem@,
{
    ResourceRequirements {
        requests: ResourceSpec { cpu: owned(req_cpu), memory: owned(req_mem) },
        limits: ResourceSpec { cpu: owned(lim_cpu), memory: owned(lim_mem) },
    }
}

/// Hardcoded last-resort defaults, used when no configuration is mounted and
/// the StellarNode spec gives no resources.
pub fn hardcoded_defaults(node_type: &NodeType) -> (r: ResourceRequirements)
    ensures
        (r.requests.cpu@, r.requests.memory@, r.limits.cpu@, r.limits.memory@) == hardcoded_spec(*node_type),
{
    match node_type {
        NodeType::Validator => requirements("500m", "1Gi", "2", "4Gi"),
        NodeType::Horizon => requirements("250m", "512Mi", "2", "4Gi"),
        NodeType::SorobanRpc => requirements("500m", "2Gi", "4", "8Gi"),
    }
}

/// Every hardcoded default names a cpu request and a memory limit.
pub proof fn law_hardcoded_defaults_non_empty(t: NodeType)
    ensures
        hardcoded_spec(t).0.len() > 0,
        hardcoded_spec(t).1.len() > 0,
        hardcoded_spec(t).2.len() > 0,
        hardcoded_spec(t).3.len() > 0,
{
    reveal_strlit("500m");
    reveal_strlit("1Gi");
    reveal_strlit("2");
    reveal_strlit("4Gi");
    reveal_strlit("250m");
    reveal_strlit("512Mi");
    reveal_strlit("2Gi");
    reveal_strlit("4");
    reveal_strlit("8Gi");
}

/// The backoff never exceeds the configured maximum, whatever jitter draws,
/// and the smallest jittered draw is no more than the backoff itself.
pub proof fn law_backoff_capped(c: ReconcilerConfig, retry_count: u32, draw: u64)
    ensures
        backoff_secs(c, retry_count) <= c.max_backoff,
        capped_secs(c, draw) <= c.max_backoff,
        jitter_low(backoff_secs(c, retry_count)) <= backoff_secs(c, retry_count),
{
}

/// The backoff never shrinks as retries accumulate.
pub proof fn law_backoff_monotone(c: ReconcilerConfig, r1: u32, r2: u32)
    requires
        r1 <= r2,
    ensures
        backoff_secs(c, r1) <= backoff_secs(c, r2),
{
    lemma_pow2_monotone(r1 as nat, r2 as nat);
    let p1 = saturating_pow2(r1 as nat);
    let p2 = saturating_pow2(r2 as nat);
    assert(c.error_backoff_base * p1 <= c.error_backoff_base * p2) by (nonlinear_arith)
        requires p1 <= p2;
}

proof fn lemma_pow2_monotone(a: nat, b: nat)
    requires
        a <= b,
    ensures
        saturating_pow2(a) <= saturating_pow2(b),
    decreases b,
{
    if a < b {
        lemma_pow2_monotone(a, (b - 1) as nat);
    }
}

} // verus!
