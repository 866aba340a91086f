//! Chaos experiments against the cluster: the experiment catalogue, the
//! Chaos Mesh annotations each experiment applies, and how outcomes are
//! judged and reported.
//!
//! Talking to the cluster and the floating-point resilience score live with
//! the caller; this module decides what is applied and what an outcome means.

use vstd::prelude::*;
use crate::text::{owned, concat2, concat3, append, u64_to_string, decimal};

verus! {

/// All supported chaos experiment types.
#[derive(Debug, Clone, Copy, PartialEq, Eq, Hash, Structural)]
pub enum ChaosExperimentType {
    PodKill,
    NetworkDelay,
    NetworkPartition,
    IoStress,
    CpuStress,
    MemoryPressure,
    DiskFill,
    ValidatorPodKill,
    CascadingFailure,
}

/// The name of an experiment type, as it is displayed.
pub open spec fn experiment_name(t: ChaosExperimentType) -> Seq<char> {
    match t {
        ChaosExperimentType::PodKill => "PodKill"@,
        ChaosExperimentType::NetworkDelay => "NetworkDelay"@,
        ChaosExperimentType::NetworkPartition => "NetworkPartition"@,
        ChaosExperimentType::IoStress => "IoStress"@,
        ChaosExperimentType::CpuStress => "CpuStress"@,
        ChaosExperimentType::MemoryPressure => "MemoryPressure"@,
        ChaosExperimentType::DiskFill => "DiskFill"@,
        ChaosExperimentType::ValidatorPodKill => "ValidatorPodKill"@,
        ChaosExperimentType::CascadingFailure => "CascadingFailure"@,
    }
}

impl ChaosExperimentType {
    /// The experiment type's name, as it is displayed.
    pub fn name(&self) -> (r: &'static str)
        ensures
            r@ == experiment_name(*self),
    {
        match self {
            ChaosExperimentType::PodKill => "PodKill",
            ChaosExperimentType::NetworkDelay => "NetworkDelay",
            ChaosExperimentType::NetworkPartition => "NetworkPartition",
            ChaosExperimentType::IoStress => "IoStress",
            ChaosExperimentType::CpuStress => "CpuStress",
            ChaosExperimentType::MemoryPressure => "MemoryPressure",
            ChaosExperimentType::DiskFill => "DiskFill",
            ChaosExperimentType::ValidatorPodKill => "ValidatorPodKill",
            ChaosExperimentType::CascadingFailure => "CascadingFailure",
        }
    }
}

/// Severity of a chaos experiment, which weighs its resilience score.
#[derive(Debug, Clone, Copy, PartialEq, Eq, Structural)]
pub enum ExperimentSeverity {
    Critical,
    High,
    Medium,
    Low,
}

/// Configuration of one chaos experiment.
#[derive(Debug, Clone)]
pub struct ChaosExperimentConfig {
    pub experiment_type: ChaosExperimentType,
    pub namespace: String,
    pub target_label_selector: String,
    pub duration_secs: u64,
    pub severity: ExperimentSeverity,
    pub slo_recovery_secs: u64,
    /// Delay of a `NetworkDelay` experiment.
    pub delay_ms: Option<u32>,
    /// Jitter of a `NetworkDelay` experiment.
    pub jitter_ms: Option<u32>,
    /// Workers of an `IoStress` experiment.
    pub io_workers: Option<u32>,
    /// Workers of a `CpuStress` experiment.
    pub cpu_workers: Option<u32>,
    /// Memory of a `MemoryPressure` experiment.
    pub memory_mb: Option<u32>,
    /// Bytes of a `DiskFill` experiment.
    pub disk_fill_bytes: Option<u64>,
}

/// The default recovery SLO of an experiment type, in seconds.
pub open spec fn default_slo(t: ChaosExperimentType) -> u64 {
    match t {
        ChaosExperimentType::PodKill => 180,
        ChaosExperimentType::NetworkPartition => 180,
        ChaosExperimentType::NetworkDelay => 600,
        ChaosExperimentType::ValidatorPodKill => 300,
        ChaosExperimentType::CascadingFailure => 600,
        ChaosExperimentType::DiskFill => 120,
        ChaosExperimentType::CpuStress => 300,
        ChaosExperimentType::MemoryPressure => 300,
        ChaosExperimentType::IoStress => 300,
    }
}

/// An optional `u32` setting, or its default.
pub open spec fn or_default_u32(v: Option<u32>, d: u32) -> u32 {
    match v {
        Some(x) => x,
        None => d,
    }
}

/// The Chaos Mesh annotation (key, value) an experiment puts on each target
/// pod; `None` for experiments that delete pods instead.
pub open spec fn chaos_annotation_spec(c: ChaosExperimentConfig) -> Option<(Seq<char>, Seq<char>)> {
    match c.experiment_type {
        ChaosExperimentType::NetworkDelay => Some((
            "chaos.mesh/network-delay"@,
            "delay="@ + decimal(or_default_u32(c.delay_ms, 100) as nat) + "ms,jitter="@
                + decimal(or_default_u32(c.jitter_ms, 10) as nat) + "ms"@,
        )),
        ChaosExperimentType::IoStress => Some((
            "chaos.mesh/io-stress"@,
            "workers="@ + decimal(or_default_u32(c.io_workers, 4) as nat),
        )),
        ChaosExperimentType::CpuStress => Some((
            "chaos.mesh/cpu-stress"@,
            "workers="@ + decimal(or_default_u32(c.cpu_workers, 2) as nat),
        )),
        ChaosExperimentType::MemoryPressure => Some((
            "chaos.mesh/memory-pressure"@,
            "memory="@ + decimal(or_default_u32(c.memory_mb, 512) as nat) + "mb"@,
        )),
        ChaosExperimentType::NetworkPartition => Some(("chaos.mesh/network-partition"@, "direction=both"@)),
        ChaosExperimentType::DiskFill => Some((
            "chaos.mesh/disk-fill"@,
            "bytes="@ + decimal(
                (match c.disk_fill_bytes {
                    Some(b) => b,
                    None => 104857600u64,
                }) as nat,
            ),
        )),
        _ => None,
    }
}

/// `v`, or `d` when absent.
fn or_default(v: Option<u32>, d: u32) -> (r: u32)
    ensures
        r == or_default_u32(v, d),
{
    match v {
        Some(x) => x,
        None => d,
    }
}

impl ChaosExperimentConfig {
    /// The default recovery SLO of an experiment type, in seconds.
    pub fn default_slo_secs(exp_type: ChaosExperimentType) -> (r: u64)
        ensures
            r == default_slo(exp_type),
    {
        match exp_type {
            ChaosExperimentType::PodKill => 180,
            ChaosExperimentType::NetworkPartition => 180,
            ChaosExperimentType::NetworkDelay => 600,
            ChaosExperimentType::ValidatorPodKill => 300,
            ChaosExperimentType::CascadingFailure => 600,
            ChaosExperimentType::DiskFill => 120,
            ChaosExperimentType::CpuStress => 300,
            ChaosExperimentType::MemoryPressure => 300,
            ChaosExperimentType::IoStress => 300,
        }
    }

    /// The Chaos Mesh annotation this experiment puts on each target pod
    /// (with the documented defaults for settings left unset), or `None`
    /// for the experiments that delete pods.
    pub fn chaos_annotation(&self) -> (r: Option<(String, String)>)
        ensures
            match r {
                Some((k, v)) => chaos_annotation_spec(*self) == Some((k@, v@)),
                None => chaos_annotation_spec(*self).is_none(),
            },
    {
        match self.experiment_type {
            ChaosExperimentType::NetworkDelay => {
                let mut v = owned("delay=");
                append(&mut v, u64_to_string(or_default(self.delay_ms, 100) as u64).as_str());
                append(&mut v, "ms,jitter=");
                append(&mut v, u64_to_string(or_default(self.jitter_ms, 10) as u64).as_str());
                append(&mut v, "ms");
                Some((owned("chaos.mesh/network-delay"), v))
            },
            ChaosExperimentType::IoStress => {
                let n = u64_to_string(or_default(self.io_workers, 4) as u64);
                Some((owned("chaos.mesh/io-stress"), concat2("workers=", n.as_str())))
            },
            ChaosExperimentType::CpuStress => {
                let n = u64_to_string(or_default(self.cpu_workers, 2) as u64);
                Some((owned("chaos.mesh/cpu-stress"), concat2("workers=", n.as_str())))
            },
            ChaosExperimentType::MemoryPressure => {
                let n = u64_to_string(or_default(self.memory_mb, 512) as u64);
                Some((owned("chaos.mesh/memory-pressure"), concat3("memory=", n.as_str(), "mb")))
            },
            ChaosExperimentType::NetworkPartition => {
                Some((owned("chaos.mesh/network-partition"), owned("direction=both")))
            },
            ChaosExperimentType::DiskFill => {
                let b = match self.disk_fill_bytes {
                    Some(b) => b,
                    None => 100 * 1024 * 1024,
                };
                let n = u64_to_string(b);
                Some((owned("chaos.mesh/disk-fill"), concat2("bytes=", n.as_str())))
            },
            _ => None,
        }
    }
}

/// How an experiment ended: whether the system recovered, and whether it did
/// so within the SLO.
#[derive(Debug, Clone, Copy, PartialEq, Eq, Structural)]
pub struct ExperimentOutcome {
    pub experiment_type: ChaosExperimentType,
    pub system_recovered: bool,
    pub slo_met: bool,
}

/// The outcome of an experiment whose pods became ready again after
/// `recovery_time` seconds (`None`: they never did within the wait).
pub open spec fn outcome_of(t: ChaosExperimentType, recovery_time: Option<u64>, slo_secs: u64) -> ExperimentOutcome {
    ExperimentOutcome {
        experiment_type: t,
        system_recovered: recovery_time.is_some(),
        slo_met: match recovery_time {
            Some(r) => r <= slo_secs,
            None => false,
        },
    }
}

/// Judges an experiment by its recovery time against its SLO.
pub fn judge_recovery(experiment_type: ChaosExperimentType, recovery_time: Option<u64>, slo_secs: u64)
    -> (r: ExperimentOutcome)
    ensures
        r == outcome_of(experiment_type, recovery_time, slo_secs),
{
    let slo_met = match recovery_time {
        Some(t) => t <= slo_secs,
        None => false,
    };
    ExperimentOutcome { experiment_type, system_recovered: recovery_time.is_some(), slo_met }
}

/// The failure reasons recorded for an outcome.
pub open spec fn failure_reasons_spec(o: ExperimentOutcome, recovery_time: Option<u64>, slo_secs: u64) -> Seq<Seq<char>> {
    if !o.system_recovered {
        seq!["System did not recover within "@ + decimal(slo_secs as nat) + "s"@]
    } else if !o.slo_met {
        seq![
            "Recovery time "@ + decimal(
                (match recovery_time {
                    Some(t) => t,
                    None => 0u64,
                }) as nat,
            ) + "s exceeded SLO of "@ + decimal(slo_secs as nat) + "s"@,
        ]
    } else {
        seq![]
    }
}

/// The failure reasons of an outcome: none when the system recovered within
/// its SLO.
pub fn failure_reasons(o: ExperimentOutcome, recovery_time: Option<u64>, slo_secs: u64) -> (r: Vec<String>)
    ensures
        r@.map_values(|s: String| s@) == failure_reasons_spec(o, recovery_time, slo_secs),
{
    let mut v: Vec<String> = Vec::new();
    if !o.system_recovered {
        let slo = u64_to_string(slo_secs);
        v.push(concat3("System did not recover within ", slo.as_str(), "s"));
    } else if !o.slo_met {
        let t = match recovery_time {
            Some(t) => t,
            None => 0,
        };
        let mut s = owned("Recovery time ");
        append(&mut s, u64_to_string(t).as_str());
        append(&mut s, "s exceeded SLO of ");
        append(&mut s, u64_to_string(slo_secs).as_str());
        append(&mut s, "s");
        v.push(s);
    }
    assert(v@.map_values(|s: String| s@) =~= failure_reasons_spec(o, recovery_time, slo_secs));
    v
}

/// Whether an outcome passes: recovered within its SLO.
pub open spec fn passes(o: ExperimentOutcome) -> bool {
    o.system_recovered && o.slo_met
}

/// The number of passing outcomes among the first `n`.
pub open spec fn passed_count(s: Seq<ExperimentOutcome>) -> nat
    decreases s.len(),
{
    if s.len() == 0 {
        0
    } else {
        passed_count(s.drop_last()) + if passes(s.last()) { 1nat } else { 0nat }
    }
}

/// The number of experiments that recovered within their SLO.
pub fn count_passed(outcomes: &[ExperimentOutcome]) -> (r: usize)
    ensures
        r == passed_count(outcomes@),
        r <= outcomes@.len(),
{
    let mut n: usize = 0;
    let mut i: usize = 0;
    while i < outcomes.len()
        invariant
            i <= outcomes.len(),
            n == passed_count(outcomes@.take(i as int)),
            n <= i,
        decreases outcomes.len() - i,
    {
        assert(outcomes@.take(i as int) == outcomes@.take((i + 1) as int).drop_last());
        if outcomes[i].system_recovered && outcomes[i].slo_met {
            n += 1;
        }
        i += 1;
    }
    assert(outcomes@.take(outcomes.len() as int) == outcomes@);
    n
}

/// The recommendation for one outcome, if it failed.
pub open spec fn recommendation_for(o: ExperimentOutcome) -> Option<Seq<char>> {
    if !o.system_recovered {
        Some(experiment_name(o.experiment_type) + ": System did not recover — add circuit breakers and retry logic"@)
    } else if !o.slo_met {
        Some(experiment_name(o.experiment_type) + ": Recovery exceeded SLO — optimise reconciliation loop performance"@)
    } else {
        None
    }
}

/// The recommendations for the failed outcomes, in order.
pub open spec fn failed_recommendations(s: Seq<ExperimentOutcome>) -> Seq<Seq<char>>
    decreases s.len(),
{
    if s.len() == 0 {
        seq![]
    } else {
        let rest = failed_recommendations(s.drop_last());
        match recommendation_for(s.last()) {
            Some(r) => rest.push(r),
            None => rest,
        }
    }
}

/// The report's recommendations: one per failed outcome, or a single note
/// that everything passed.
pub open spec fn recommendations_spec(s: Seq<ExperimentOutcome>) -> Seq<Seq<char>> {
    if failed_recommendations(s).len() == 0 {
        seq!["All experiments passed. Continue running chaos tests regularly."@]
    } else {
        failed_recommendations(s)
    }
}

/// The recommendations of a resilience report: one per experiment that did
/// not recover or missed its SLO, or a note that all experiments passed.
pub fn recommendations(outcomes: &[ExperimentOutcome]) -> (r: Vec<String>)
    ensures
        r@.map_values(|s: String| s@) == recommendations_spec(outcomes@),
{
    let mut v: Vec<String> = Vec::new();
    let mut i: usize = 0;
    while i < outcomes.len()
        invariant
            i <= outcomes.len(),
            v@.map_values(|s: String| s@) == failed_recommendations(outcomes@.take(i as int)),
        decreases outcomes.len() - i,
    {
        let o = outcomes[i];
        assert(outcomes@.take(i as int) == outcomes@.take((i + 1) as int).drop_last());
        if !o.system_recovered {
            v.push(concat2(o.experiment_type.name(), ": System did not recover — add circuit breakers and retry logic"));
        } else if !o.slo_met {
            v.push(concat2(o.experiment_type.name(), ": Recovery exceeded SLO — optimise reconciliation loop performance"));
        }
        i += 1;
        assert(v@.map_values(|s: String| s@) =~= failed_recommendations(outcomes@.take(i as int)));
    }
    assert(outcomes@.take(outcomes.len() as int) == outcomes@);
    if v.len() == 0 {
        v.push(owned("All experiments passed. Continue running chaos tests regularly."));
        assert(v@.map_values(|s: String| s@) =~= recommendations_spec(outcomes@));
    }
    v
}

/// What the recovery monitor does after one look at the target pods.
#[derive(Debug, Clone, Copy, PartialEq, Eq, Structural)]
pub enum RecoveryStep {
    /// Every target pod is ready: the system recovered after this many seconds.
    Recovered(u64),
    /// The wait is over without recovery.
    GaveUp,
    /// Look again after the poll interval.
    Wait,
}

/// Longest wait for recovery, in seconds.
pub const MAX_RECOVERY_WAIT_SECS: u64 = 600;

/// Seconds between two looks at the target pods.
pub const RECOVERY_POLL_SECS: u64 = 5;

/// The monitor's decision after a look: recovered when every pod is ready,
/// given up once more than the maximum wait has passed, else wait.
pub fn recovery_step(all_ready: bool, elapsed_secs: u64) -> (r: RecoveryStep)
    ensures
        all_ready ==> r == RecoveryStep::Recovered(elapsed_secs),
        !all_ready && elapsed_secs > MAX_RECOVERY_WAIT_SECS ==> r == RecoveryStep::GaveUp,
        !all_ready && elapsed_secs <= MAX_RECOVERY_WAIT_SECS ==> r == RecoveryStep::Wait,
{
    if all_ready {
        RecoveryStep::Recovered(elapsed_secs)
    } else if elapsed_secs > MAX_RECOVERY_WAIT_SECS {
        RecoveryStep::GaveUp
    } else {
        RecoveryStep::Wait
    }
}

/// Whether a pod's conditions, as (type, status) pairs, include
/// `Ready` = `True`.
pub open spec fn pod_ready_spec(conditions: Seq<(Seq<char>, Seq<char>)>) -> bool {
    exists|i: int| 0 <= i < conditions.len() && #[trigger] conditions[i] == ("Ready"@, "True"@)
}

/// Whether a pod is ready: one of its conditions is `Ready` with status `True`.
pub fn pod_ready(conditions: &[(String, String)]) -> (r: bool)
    ensures
        r == pod_ready_spec(conditions@.map_values(|c: (String, String)| (c.0@, c.1@))),
{
    let ghost cs = conditions@.map_values(|c: (String, String)| (c.0@, c.1@));
    let mut i: usize = 0;
    while i < conditions.len()
        invariant
            i <= conditions.len(),
            cs == conditions@.map_values(|c: (String, String)| (c.0@, c.1@)),
            forall|j: int| 0 <= j < i ==> cs[j] != ("Ready"@, "True"@),
        decreases conditions.len() - i,
    {
        if crate::text::str_eq(conditions[i].0.as_str(), "Ready") && crate::text::str_eq(conditions[i].1.as_str(), "True") {
            assert(cs[i as int] == ("Ready"@, "True"@));
            return true;
        }
        i += 1;
    }
    false
}

/// An experiment passes exactly when it recovered no later than its SLO.
pub proof fn law_pass_iff_recovered_within_slo(t: ChaosExperimentType, recovery_time: Option<u64>, slo_secs: u64)
    ensures
        passes(outcome_of(t, recovery_time, slo_secs)) <==> (recovery_time.is_some() && recovery_time.unwrap() <= slo_secs),
        passes(outcome_of(t, recovery_time, slo_secs)) <==> failure_reasons_spec(outcome_of(t, recovery_time, slo_secs), recovery_time, slo_secs).len() == 0,
{
}

/// A report either recommends something for each failed experiment or says
/// that all passed; it is never empty.
pub proof fn law_recommendations_cover_failures(s: Seq<ExperimentOutcome>)
    ensures
        recommendations_spec(s).len() >= 1,
        failed_recommendations(s).len() + passed_count(s) == s.len(),
    decreases s.len(),
{
    if s.len() > 0 {
        law_recommendations_cover_failures(s.drop_last());
    }
}

} // verus!
