//! Snapshot integrity checking: configuration, which archived objects are
//! snapshots, how a verification run is judged and how its outcome is
//! recorded.
//!
//! Scheduling, creating the temporary validator's objects and the storage
//! listing are the caller's I/O; this module decides what those objects are
//! and what the observations mean.

use vstd::prelude::*;
use crate::text::{owned, concat2, append, u64_to_string, i64_to_string, decimal, signed_decimal,
    str_ends_with, ends_with_seq};
use crate::metrics::{MetricsView, NodeLabels, OperatorMetrics, set_snapshot_integrity};
use crate::crd::ResourceSpec;

verus! {

/// Where snapshots are archived.
#[derive(Debug, Clone, PartialEq, Eq)]
pub enum StorageBackend {
    S3 { bucket: String, region: String, prefix: String, credentials_secret: String },
    GCS { bucket: String, prefix: String, credentials_secret: String },
}

impl Default for StorageBackend {
    /// S3 in us-east-1 under "snapshots/", with the "aws-credentials"
    /// secret and no bucket yet.
    fn default() -> (r: Self)
        ensures
            match r {
                StorageBackend::S3 { bucket, region, prefix, credentials_secret } => bucket@.len() == 0
                    && region@ == "us-east-1"@ && prefix@ == "snapshots/"@ && credentials_secret@ == "aws-credentials"@,
                _ => false,
            },
    {
        StorageBackend::S3 {
            bucket: String::new(),
            region: owned("us-east-1"),
            prefix: owned("snapshots/"),
            credentials_secret: owned("aws-credentials"),
        }
    }
}

/// Resources of the temporary validator that replays a snapshot.
#[derive(Debug, Clone, PartialEq, Eq)]
pub struct ValidatorResources {
    pub cpu_limit: String,
    pub memory_limit: String,
    pub storage_size: String,
}

fn default_validator_cpu() -> (r: String)
    ensures
        r@ == "4000m"@,
{
    owned("4000m")
}

fn default_validator_memory() -> (r: String)
    ensures
        r@ == "8Gi"@,
{
    owned("8Gi")
}

fn default_validator_storage() -> (r: String)
    ensures
        r@ == "200Gi"@,
{
    owned("200Gi")
}

impl Default for ValidatorResources {
    /// 4000m of CPU, 8Gi of memory, 200Gi of storage.
    fn default() -> (r: Self)
        ensures
            r.cpu_limit@ == "4000m"@,
            r.memory_limit@ == "8Gi"@,
            r.storage_size@ == "200Gi"@,
    {
        ValidatorResources {
            cpu_limit: default_validator_cpu(),
            memory_limit: default_validator_memory(),
            storage_size: default_validator_storage(),
        }
    }
}

/// Configuration of periodic snapshot integrity checks.
#[derive(Debug, Clone, PartialEq, Eq)]
pub struct SnapshotIntegrityConfig {
    pub enabled: bool,
    /// Cron schedule of the runs.
    pub schedule: String,
    pub storage_backend: StorageBackend,
    /// How many snapshots each run verifies.
    pub snapshots_per_run: usize,
    pub timeout_minutes: u64,
    /// Ledgers the replaying validator must reach for consensus to count.
    pub min_ledgers_for_consensus: u64,
    pub resources: ValidatorResources,
    pub notification_webhook: Option<String>,
}

fn default_integrity_schedule() -> (r: String)
    ensures
        r@ == "0 3 * * *"@,
{
    owned("0 3 * * *")
}

fn default_snapshot_count() -> (r: usize)
    ensures
        r == 3,
{
    3
}

fn default_integrity_timeout() -> (r: u64)
    ensures
        r == 120,
{
    120
}

fn default_min_ledgers() -> (r: u64)
    ensures
        r == 10,
{
    10
}

impl Default for SnapshotIntegrityConfig {
    /// Disabled; daily at 03:00; three snapshots per run; a 120 minute
    /// timeout; consensus after 10 ledgers; default backend and resources;
    /// no webhook.
    fn default() -> (r: Self)
        ensures
            !r.enabled,
            r.schedule@ == "0 3 * * *"@,
            r.snapshots_per_run == 3,
            r.timeout_minutes == 120,
            r.min_ledgers_for_consensus == 10,
            r.notification_webhook.is_none(),
    {
        SnapshotIntegrityConfig {
            enabled: false,
            schedule: default_integrity_schedule(),
            storage_backend: StorageBackend::default(),
            snapshots_per_run: default_snapshot_count(),
            timeout_minutes: default_integrity_timeout(),
            min_ledgers_for_consensus: default_min_ledgers(),
            resources: ValidatorResources::default(),
            notification_webhook: None,
        }
    }
}

/// Outcome of verifying one snapshot.
#[derive(Debug, Clone, Copy, PartialEq, Eq, Structural)]
pub enum IntegrityStatus {
    Pass,
    Fail,
    Timeout,
}

/// One step of a verification run.
#[derive(Debug, Clone)]
pub struct IntegrityCheck {
    pub name: String,
    pub passed: bool,
    pub message: String,
    pub duration_ms: u64,
}

/// How far the replaying validator got.
#[derive(Debug, Clone)]
pub struct ConsensusDetails {
    pub ledgers_verified: u64,
    pub consensus_achieved: bool,
    pub final_ledger_hash: String,
    pub sync_time_seconds: u64,
}

/// The report of verifying one snapshot.
#[derive(Debug, Clone)]
pub struct IntegrityReport {
    /// When the run started, in milliseconds since the Unix epoch.
    pub timestamp_ms: i64,
    pub snapshot_id: String,
    pub snapshot_source: String,
    pub status: IntegrityStatus,
    pub duration_seconds: u64,
    pub checks: Vec<IntegrityCheck>,
    pub consensus_details: Option<ConsensusDetails>,
    pub error_message: Option<String>,
}

/// Whether an archived object is a snapshot: a `.tar.gz` or `.sql.gz` file.
pub open spec fn is_snapshot_key(k: Seq<char>) -> bool {
    ends_with_seq(k, ".tar.gz"@) || ends_with_seq(k, ".sql.gz"@)
}

/// The snapshots among archived object keys, in order.
pub open spec fn snapshot_keys_spec(keys: Seq<Seq<char>>) -> Seq<Seq<char>> {
    keys.filter(|k: Seq<char>| is_snapshot_key(k))
}

/// The snapshots among archived object keys, in listing order.
pub fn snapshot_keys(keys: &[String]) -> (r: Vec<String>)
    ensures
        r@.map_values(|s: String| s@) == snapshot_keys_spec(keys@.map_values(|s: String| s@)),
{
    let ghost ks = keys@.map_values(|s: String| s@);
    let mut out: Vec<String> = Vec::new();
    let mut i: usize = 0;
    while i < keys.len()
        invariant
            i <= keys.len(),
            ks == keys@.map_values(|s: String| s@),
            out@.map_values(|s: String| s@) == snapshot_keys_spec(ks.take(i as int)),
        decreases keys.len() - i,
    {
        let k = keys[i].as_str();
        proof {
            assert(ks.take(i + 1).drop_last() =~= ks.take(i as int));
            reveal(Seq::filter);
        }
        let ghost before = out@;
        if str_ends_with(k, ".tar.gz") || str_ends_with(k, ".sql.gz") {
            out.push(owned(k));
            assert(out@.map_values(|s: String| s@) =~= before.map_values(|s: String| s@).push(ks[i as int]));
        }
        i += 1;
    }
    assert(ks.take(keys.len() as int) =~= ks);
    out
}

/// The name of the temporary namespace a run started at `now_secs` uses.
pub fn temp_namespace_name(now_secs: i64) -> (r: String)
    ensures
        r@ == "verify-snap-"@ + signed_decimal(now_secs as int),
{
    concat2("verify-snap-", i64_to_string(now_secs).as_str())
}

/// Whether every check passed.
pub open spec fn all_passed(checks: Seq<IntegrityCheck>) -> bool {
    forall|i: int| 0 <= i < checks.len() ==> (#[trigger] checks[i]).passed
}

/// The status of a completed run: `Pass` when every check passed, else `Fail`.
pub fn report_status(checks: &[IntegrityCheck]) -> (r: IntegrityStatus)
    ensures
        r == (if all_passed(checks@) { IntegrityStatus::Pass } else { IntegrityStatus::Fail }),
{
    let mut i: usize = 0;
    while i < checks.len()
        invariant
            i <= checks.len(),
            forall|j: int| 0 <= j < i ==> (#[trigger] checks@[j]).passed,
        decreases checks.len() - i,
    {
        if !checks[i].passed {
            return IntegrityStatus::Fail;
        }
        i += 1;
    }
    IntegrityStatus::Pass
}

/// What the consensus monitor knows so far: the highest ledger the
/// validator reported and that ledger's hash.
#[derive(Debug, Clone)]
pub struct ConsensusProgress {
    pub ledgers_verified: u64,
    pub last_ledger_hash: String,
}

/// One poll of the replaying validator: a report of ledger `num` (with its
/// hash, empty when absent) advances the progress when it is higher than
/// what was seen; consensus is reached once `min_ledgers` is.
pub fn consensus_poll(progress: ConsensusProgress, report: Option<(u64, String)>, min_ledgers: u64)
    -> (r: (ConsensusProgress, bool))
    ensures
        match report {
            Some((num, hash)) => if num > progress.ledgers_verified {
                r.0.ledgers_verified == num && r.0.last_ledger_hash == hash && r.1 == (num >= min_ledgers)
            } else {
                r.0.ledgers_verified == progress.ledgers_verified && r.0.last_ledger_hash == progress.last_ledger_hash && !r.1
            },
            None => r.0.ledgers_verified == progress.ledgers_verified && r.0.last_ledger_hash == progress.last_ledger_hash && !r.1,
        },
{
    match report {
        Some((num, hash)) => {
            if num > progress.ledgers_verified {
                let done = num >= min_ledgers;
                (ConsensusProgress { ledgers_verified: num, last_ledger_hash: hash }, done)
            } else {
                (progress, false)
            }
        },
        None => (progress, false),
    }
}

/// The consensus details at the end of monitoring: achieved when the
/// validator reached `min_ledgers`.
pub fn consensus_details(progress: ConsensusProgress, min_ledgers: u64, sync_time_seconds: u64) -> (r: ConsensusDetails)
    ensures
        r.ledgers_verified == progress.ledgers_verified,
        r.consensus_achieved == (progress.ledgers_verified >= min_ledgers),
        r.final_ledger_hash == progress.last_ledger_hash,
        r.sync_time_seconds == sync_time_seconds,
{
    ConsensusDetails {
        ledgers_verified: progress.ledgers_verified,
        consensus_achieved: progress.ledgers_verified >= min_ledgers,
        final_ledger_hash: progress.last_ledger_hash,
        sync_time_seconds,
    }
}

/// Records a run's outcome: the status gauge of the snapshot at 1 when it
/// passed, and the run's duration in milliseconds.
pub fn update_metrics(m: &mut OperatorMetrics, snapshot_id: &str, report: &IntegrityReport)
    requires
        report.duration_seconds * 1000 <= i64::MAX,
    ensures
        final(m)@ == (MetricsView {
            snapshot_integrity_status: old(m)@.snapshot_integrity_status.insert(
                crate::metrics::node_key("snapshot-verification"@, snapshot_id@, "validator"@, "testnet"@, "temp"@),
                if report.status == IntegrityStatus::Pass { 1i64 } else { 0i64 },
            ),
            snapshot_integrity_check_duration_ms: old(m)@.snapshot_integrity_check_duration_ms.insert(
                crate::metrics::node_key("snapshot-verification"@, snapshot_id@, "validator"@, "testnet"@, "temp"@),
                (report.duration_seconds * 1000) as i64,
            ),
            ..old(m)@
        }),
{
    let labels = NodeLabels {
        namespace: owned("snapshot-verification"),
        name: owned(snapshot_id),
        node_type: owned("validator"),
        network: owned("testnet"),
        hardware_generation: owned("temp"),
    };
    let passed = match report.status {
        IntegrityStatus::Pass => true,
        _ => false,
    };
    set_snapshot_integrity(m, &labels, passed, (report.duration_seconds as i64) * 1000);
}

/// A check whose message is a fixed text.
fn check(name: &str, passed: bool, message: &str, duration_ms: u64) -> (r: IntegrityCheck)
    ensures
        r.name@ == name@,
        r.passed == passed,
        r.message@ == message@,
        r.duration_ms == duration_ms,
{
    IntegrityCheck { name: owned(name), passed, message: owned(message), duration_ms }
}

/// The check recorded once the temporary namespace exists.
pub fn namespace_created_check(namespace: &str) -> (r: IntegrityCheck)
    ensures
        r.name@ == "CreateNamespace"@,
        r.passed,
        r.message@ == "Created temporary namespace: "@ + namespace@,
        r.duration_ms == 0,
{
    IntegrityCheck {
        name: owned("CreateNamespace"),
        passed: true,
        message: concat2("Created temporary namespace: ", namespace),
        duration_ms: 0,
    }
}

/// The check recorded once the temporary validator is deployed.
pub fn validator_deployed_check() -> (r: IntegrityCheck)
    ensures
        r.name@ == "DeployValidator"@,
        r.passed,
        r.message@ == "Temporary validator deployed"@,
        r.duration_ms == 0,
{
    check("DeployValidator", true, "Temporary validator deployed", 0)
}

/// The check recorded after restoring the snapshot, failed with the error's
/// text when restoring failed.
pub fn restore_check(error: Option<&str>) -> (r: IntegrityCheck)
    ensures
        r.name@ == "RestoreSnapshot"@,
        r.passed == error.is_none(),
        r.message@ == match error {
            Some(e) => "Failed to restore snapshot: "@ + e@,
            None => "Snapshot restored successfully"@,
        },
        r.duration_ms == 0,
{
    match error {
        Some(e) => IntegrityCheck {
            name: owned("RestoreSnapshot"),
            passed: false,
            message: concat2("Failed to restore snapshot: ", e),
            duration_ms: 0,
        },
        None => check("RestoreSnapshot", true, "Snapshot restored successfully", 0),
    }
}

/// The check recorded after probing the validator's health.
pub fn validator_health_check(healthy: bool) -> (r: IntegrityCheck)
    ensures
        r.name@ == "ValidatorHealth"@,
        r.passed == healthy,
        r.message@ == (if healthy { "Validator is healthy"@ } else { "Validator health check failed"@ }),
        r.duration_ms == 0,
{
    if healthy {
        check("ValidatorHealth", true, "Validator is healthy", 0)
    } else {
        check("ValidatorHealth", false, "Validator health check failed", 0)
    }
}

/// The check recorded after monitoring consensus: passed when consensus was
/// achieved; failed with the error's text when monitoring failed.
pub fn consensus_check(outcome: Result<&ConsensusDetails, &str>, duration_ms: u64) -> (r: IntegrityCheck)
    ensures
        r.name@ == "ConsensusVerification"@,
        r.duration_ms == duration_ms,
        match outcome {
            Ok(d) => r.passed == d.consensus_achieved
                && r.message@ == "Verified "@ + decimal(d.ledgers_verified as nat) + " ledgers, consensus: "@
                    + (if d.consensus_achieved { "true"@ } else { "false"@ }),
            Err(e) => !r.passed && r.message@ == "Consensus verification failed: "@ + e@,
        },
{
    match outcome {
        Ok(d) => {
            let mut msg = owned("Verified ");
            append(&mut msg, u64_to_string(d.ledgers_verified).as_str());
            append(&mut msg, " ledgers, consensus: ");
            append(&mut msg, if d.consensus_achieved { "true" } else { "false" });
            IntegrityCheck { name: owned("ConsensusVerification"), passed: d.consensus_achieved, message: msg, duration_ms }
        },
        Err(e) => IntegrityCheck {
            name: owned("ConsensusVerification"),
            passed: false,
            message: concat2("Consensus verification failed: ", e),
            duration_ms,
        },
    }
}

/// The steps of a restore-and-test run after the namespace exists, in order.
#[derive(Debug, Clone, Copy, PartialEq, Eq, Structural)]
pub enum VerificationStep {
    Deploy,
    Restore,
    Health,
    Consensus,
}

/// What the caller observed when it performed a step.
#[derive(Debug)]
pub enum StepOutcome {
    /// The temporary validator was deployed.
    Deployed,
    /// Restoring the snapshot succeeded, or failed with this error text.
    Restored(Result<(), String>),
    /// The validator's health probe answered.
    Healthy(bool),
    /// Consensus monitoring, which took the given milliseconds, reported these
    /// details or failed with this error text.
    Consensus(Result<ConsensusDetails, String>, u64),
}

/// The outcome is one that `step` produces.
pub open spec fn outcome_fits(step: VerificationStep, o: StepOutcome) -> bool {
    match step {
        VerificationStep::Deploy => o is Deployed,
        VerificationStep::Restore => o is Restored,
        VerificationStep::Health => o is Healthy,
        VerificationStep::Consensus => o is Consensus,
    }
}

/// The check recorded for an outcome, as the check builders above make it.
pub open spec fn step_check(c: IntegrityCheck, o: StepOutcome) -> bool {
    match o {
        StepOutcome::Deployed => c.name@ == "DeployValidator"@ && c.passed
            && c.message@ == "Temporary validator deployed"@ && c.duration_ms == 0,
        StepOutcome::Restored(r) => c.name@ == "RestoreSnapshot"@ && c.passed == r is Ok && c.duration_ms == 0
            && c.message@ == match r {
                Ok(_) => "Snapshot restored successfully"@,
                Err(e) => "Failed to restore snapshot: "@ + e@,
            },
        StepOutcome::Healthy(h) => c.name@ == "ValidatorHealth"@ && c.passed == h && c.duration_ms == 0
            && c.message@ == (if h { "Validator is healthy"@ } else { "Validator health check failed"@ }),
        StepOutcome::Consensus(r, dur) => c.name@ == "ConsensusVerification"@ && c.duration_ms == dur
            && match r {
                Ok(d) => c.passed == d.consensus_achieved
                    && c.message@ == "Verified "@ + decimal(d.ledgers_verified as nat) + " ledgers, consensus: "@
                        + (if d.consensus_achieved { "true"@ } else { "false"@ }),
                Err(e) => !c.passed && c.message@ == "Consensus verification failed: "@ + e@,
            },
    }
}

/// The step after `o`: deploying leads to restoring, a restore that succeeded
/// to the health probe, a healthy validator to consensus monitoring; a failed
/// restore, an unhealthy validator and the end of monitoring end the run.
pub open spec fn next_step(o: StepOutcome) -> Option<VerificationStep> {
    match o {
        StepOutcome::Deployed => Some(VerificationStep::Restore),
        StepOutcome::Restored(r) => if r is Ok { Some(VerificationStep::Health) } else { None },
        StepOutcome::Healthy(h) => if h { Some(VerificationStep::Consensus) } else { None },
        StepOutcome::Consensus(_, _) => None,
    }
}

/// The plain contents of an optional message.
pub open spec fn opt_text(m: Option<String>) -> Option<Seq<char>> {
    match m {
        Some(s) => Some(s@),
        None => None,
    }
}

/// The report's error message after `o`: an unhealthy validator, consensus
/// not achieved and a monitoring error each set it; other outcomes keep it.
pub open spec fn error_after(before: Option<Seq<char>>, o: StepOutcome) -> Option<Seq<char>> {
    match o {
        StepOutcome::Healthy(h) => if h { before } else { Some("Validator failed to start properly"@) },
        StepOutcome::Consensus(r, _) => match r {
            Ok(d) => if d.consensus_achieved { before } else { Some("Failed to achieve consensus"@) },
            Err(e) => Some(e@),
        },
        _ => before,
    }
}

/// Records the outcome of one step of a restore-and-test run in `report` and
/// says which step comes next (`None` when the run is over). The caller
/// performs each step (deploying, restoring, probing, monitoring) and hands
/// its outcome here, beginning with `Deploy`.
pub fn verification_step(report: &mut IntegrityReport, step: VerificationStep, outcome: StepOutcome)
    -> (next: Option<VerificationStep>)
    requires
        outcome_fits(step, outcome),
    ensures
        next == next_step(outcome),
        final(report).checks@.len() == old(report).checks@.len() + 1,
        final(report).checks@.take(old(report).checks@.len() as int) == old(report).checks@,
        step_check(final(report).checks@.last(), outcome),
        opt_text(final(report).error_message) == error_after(opt_text(old(report).error_message), outcome),
        final(report).consensus_details == match outcome {
            StepOutcome::Consensus(Ok(d), _) => Some(d),
            _ => old(report).consensus_details,
        },
        final(report).timestamp_ms == old(report).timestamp_ms,
        final(report).snapshot_id == old(report).snapshot_id,
        final(report).snapshot_source == old(report).snapshot_source,
        final(report).status == old(report).status,
        final(report).duration_seconds == old(report).duration_seconds,
{
    let ghost before = report.checks@;
    let next = match outcome {
        StepOutcome::Deployed => {
            report.checks.push(validator_deployed_check());
            Some(VerificationStep::Restore)
        },
        StepOutcome::Restored(r) => match r {
            Ok(()) => {
                report.checks.push(restore_check(None));
                Some(VerificationStep::Health)
            },
            Err(e) => {
                report.checks.push(restore_check(Some(e.as_str())));
                None
            },
        },
        StepOutcome::Healthy(h) => {
            report.checks.push(validator_health_check(h));
            if h {
                Some(VerificationStep::Consensus)
            } else {
                report.error_message = Some(owned("Validator failed to start properly"));
                None
            }
        },
        StepOutcome::Consensus(r, dur) => {
            match r {
                Ok(d) => {
                    report.checks.push(consensus_check(Ok(&d), dur));
                    if !d.consensus_achieved {
                        report.error_message = Some(owned("Failed to achieve consensus"));
                    }
                    report.consensus_details = Some(d);
                },
                Err(e) => {
                    report.checks.push(consensus_check(Err(e.as_str()), dur));
                    report.error_message = Some(e);
                },
            }
            None
        },
    };
    assert(report.checks@.take(before.len() as int) =~= before);
    next
}

/// A named container or service port.
#[derive(Debug, Clone)]
pub struct NamedPort {
    pub name: String,
    pub port: u16,
}

/// The volume claim holding the temporary validator's data.
#[derive(Debug, Clone)]
pub struct VolumeClaimManifest {
    pub name: String,
    pub namespace: String,
    pub access_mode: String,
    pub storage: String,
}

/// The StatefulSet running the temporary validator.
#[derive(Debug, Clone)]
pub struct StatefulSetManifest {
    pub name: String,
    pub namespace: String,
    /// The StatefulSet's labels, in order.
    pub labels: Vec<(String, String)>,
    pub service_name: String,
    pub replicas: u32,
    /// The `app` label selecting (and carried by) its pods.
    pub app: String,
    pub container_name: String,
    pub image: String,
    pub command: Vec<String>,
    pub ports: Vec<NamedPort>,
    pub limits: ResourceSpec,
    pub requests: ResourceSpec,
    pub volume_name: String,
    pub mount_path: String,
    pub claim_name: String,
}

/// The headless Service in front of the temporary validator.
#[derive(Debug, Clone)]
pub struct ServiceManifest {
    pub name: String,
    pub namespace: String,
    /// The `app` label it selects.
    pub app: String,
    /// Each port, served on the same target port.
    pub ports: Vec<NamedPort>,
    pub headless: bool,
}

/// The objects that provision a temporary validator.
#[derive(Debug, Clone)]
pub struct ValidatorManifests {
    pub volume_claim: VolumeClaimManifest,
    pub stateful_set: StatefulSetManifest,
    pub service: ServiceManifest,
}

/// The name of the temporary validator.
pub const TEMP_VALIDATOR_NAME: &'static str = "temp-validator";

/// The validator's two ports: 11625 `peer` and 11626 `http`.
pub open spec fn validator_ports(p: Seq<NamedPort>) -> bool {
    &&& p.len() == 2
    &&& p[0].name@ == "peer"@ && p[0].port == 11625
    &&& p[1].name@ == "http"@ && p[1].port == 11626
}

/// The objects that provision the temporary validator replaying
/// `snapshot_id` in `namespace` with the given resources.
pub open spec fn validator_manifests_spec(m: ValidatorManifests, namespace: Seq<char>, snapshot_id: Seq<char>,
    resources: ValidatorResources) -> bool {
    let pvc = m.volume_claim;
    let sts = m.stateful_set;
    let svc = m.service;
    &&& pvc.name@ == "temp-validator-data"@
    &&& pvc.namespace@ == namespace
    &&& pvc.access_mode@ == "ReadWriteOnce"@
    &&& pvc.storage@ == resources.storage_size@
    &&& sts.name@ == "temp-validator"@
    &&& sts.namespace@ == namespace
    &&& sts.labels@.len() == 2
    &&& sts.labels@[0].0@ == "app"@ && sts.labels@[0].1@ == "temp-validator"@
    &&& sts.labels@[1].0@ == "stellar.org/snapshot-id"@ && sts.labels@[1].1@ == snapshot_id
    &&& sts.service_name@ == "temp-validator"@
    &&& sts.replicas == 1
    &&& sts.app@ == "temp-validator"@
    &&& sts.container_name@ == "stellar-core"@
    &&& sts.image@ == "stellar/stellar-core:latest"@
    &&& sts.command@.len() == 3
    &&& sts.command@[0]@ == "/bin/sh"@ && sts.command@[1]@ == "-c"@ && sts.command@[2]@ == "sleep 3600"@
    &&& validator_ports(sts.ports@)
    &&& sts.limits.cpu@ == resources.cpu_limit@ && sts.limits.memory@ == resources.memory_limit@
    &&& sts.requests.cpu@ == "2000m"@ && sts.requests.memory@ == "4Gi"@
    &&& sts.volume_name@ == "data"@
    &&& sts.mount_path@ == "/data"@
    &&& sts.claim_name@ == "temp-validator-data"@
    &&& svc.name@ == "temp-validator"@
    &&& svc.namespace@ == namespace
    &&& svc.app@ == "temp-validator"@
    &&& validator_ports(svc.ports@)
    &&& svc.headless
}

fn ports() -> (r: Vec<NamedPort>)
    ensures
        validator_ports(r@),
{
    vec![NamedPort { name: owned("peer"), port: 11625 }, NamedPort { name: owned("http"), port: 11626 }]
}

/// The volume claim, StatefulSet and Service that provision the temporary
/// validator replaying `snapshot_id` in `namespace`.
pub fn validator_manifests(namespace: &str, snapshot_id: &str, resources: &ValidatorResources) -> (m: ValidatorManifests)
    ensures
        validator_manifests_spec(m, namespace@, snapshot_id@, *resources),
{
    let data_claim = concat2(TEMP_VALIDATOR_NAME, "-data");
    proof {
        reveal_strlit("temp-validator");
        reveal_strlit("-data");
        reveal_strlit("temp-validator-data");
        assert(data_claim@ =~= "temp-validator-data"@);
    }
    let volume_claim = VolumeClaimManifest {
        name: owned(data_claim.as_str()),
        namespace: owned(namespace),
        access_mode: owned("ReadWriteOnce"),
        storage: owned(resources.storage_size.as_str()),
    };
    let stateful_set = StatefulSetManifest {
        name: owned(TEMP_VALIDATOR_NAME),
        namespace: owned(namespace),
        labels: vec![(owned("app"), owned(TEMP_VALIDATOR_NAME)), (owned("stellar.org/snapshot-id"), owned(snapshot_id))],
        service_name: owned(TEMP_VALIDATOR_NAME),
        replicas: 1,
        app: owned(TEMP_VALIDATOR_NAME),
        container_name: owned("stellar-core"),
        image: owned("stellar/stellar-core:latest"),
        command: vec![owned("/bin/sh"), owned("-c"), owned("sleep 3600")],
        ports: ports(),
        limits: ResourceSpec { cpu: owned(resources.cpu_limit.as_str()), memory: owned(resources.memory_limit.as_str()) },
        requests: ResourceSpec { cpu: owned("2000m"), memory: owned("4Gi") },
        volume_name: owned("data"),
        mount_path: owned("/data"),
        claim_name: data_claim,
    };
    let service = ServiceManifest {
        name: owned(TEMP_VALIDATOR_NAME),
        namespace: owned(namespace),
        app: owned(TEMP_VALIDATOR_NAME),
        ports: ports(),
        headless: true,
    };
    ValidatorManifests { volume_claim, stateful_set, service }
}

} // verus!
