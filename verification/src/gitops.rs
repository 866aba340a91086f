//! Protocol upgrades driven through GitOps: which scheduled upgrade step is
//! due, and the annotations that ask Argo CD or Flux to sync it.
//!
//! Patching the StellarNode and watching consensus are the caller's I/O.

use vstd::prelude::*;
use crate::text::{owned, u64_to_string, i64_to_string, decimal, signed_decimal};

verus! {

/// The GitOps engine that applies upgrades.
#[derive(Clone, Copy, Debug, PartialEq, Eq, Structural)]
pub enum GitOpsEngine {
    ArgoCd,
    Flux,
}

/// The name of an engine, as it is displayed.
pub open spec fn engine_name(e: GitOpsEngine) -> Seq<char> {
    match e {
        GitOpsEngine::ArgoCd => "argocd"@,
        GitOpsEngine::Flux => "flux"@,
    }
}

impl GitOpsEngine {
    /// The engine's name, as it is displayed: "argocd" or "flux".
    pub fn name(&self) -> (r: &'static str)
        ensures
            r@ == engine_name(*self),
    {
        match self {
            GitOpsEngine::ArgoCd => "argocd",
            GitOpsEngine::Flux => "flux",
        }
    }
}

/// One scheduled protocol upgrade.
#[derive(Clone, Debug, PartialEq, Eq)]
pub struct ProtocolUpgradeStep {
    pub protocol_version: u32,
    /// When the step may be applied, in seconds since the Unix epoch.
    pub activate_at_unix: i64,
    /// Git reference of the configuration to apply.
    pub config_ref: String,
}

/// The scheduled protocol upgrades.
#[derive(Clone, Debug, PartialEq, Eq)]
pub struct ProtocolUpgradeTimeline {
    pub steps: Vec<ProtocolUpgradeStep>,
}

impl Default for ProtocolUpgradeTimeline {
    fn default() -> (r: Self)
        ensures
            r.steps@.len() == 0,
    {
        ProtocolUpgradeTimeline { steps: Vec::new() }
    }
}

/// The upgrade a sync was requested for.
#[derive(Clone, Debug, PartialEq, Eq)]
pub struct GitOpsUpgradePlan {
    pub target_protocol: u32,
    pub config_ref: String,
    /// The annotations written, in increasing order of key.
    pub sync_annotations: Vec<(String, String)>,
}

/// Plans protocol upgrades through a GitOps engine.
#[derive(Clone, Copy, Debug, PartialEq, Eq)]
pub struct GitOpsUpgradeController {
    pub engine: GitOpsEngine,
    /// How long the engine may take to sync, in seconds.
    pub sync_timeout_secs: u64,
}

impl Default for GitOpsUpgradeController {
    /// Argo CD with a 300 s sync timeout.
    fn default() -> (r: Self)
        ensures
            r.engine == GitOpsEngine::ArgoCd,
            r.sync_timeout_secs == 300,
    {
        GitOpsUpgradeController { engine: GitOpsEngine::ArgoCd, sync_timeout_secs: 300 }
    }
}

/// Whether a step is due: above the current protocol and already active.
pub open spec fn is_due(s: ProtocolUpgradeStep, current_protocol: u32, now_unix: i64) -> bool {
    s.protocol_version > current_protocol && s.activate_at_unix <= now_unix
}

/// Whether `i` is the step to apply: a due step of the lowest protocol
/// version, the first such one in order.
pub open spec fn is_next_due(steps: Seq<ProtocolUpgradeStep>, i: int, current_protocol: u32, now_unix: i64) -> bool {
    &&& 0 <= i < steps.len()
    &&& is_due(steps[i], current_protocol, now_unix)
    &&& forall|j: int| 0 <= j < steps.len() && #[trigger] is_due(steps[j], current_protocol, now_unix)
        ==> steps[i].protocol_version <= steps[j].protocol_version
    &&& forall|j: int| 0 <= j < i && #[trigger] is_due(steps[j], current_protocol, now_unix)
        ==> steps[i].protocol_version < steps[j].protocol_version
}

/// The annotations of a sync request, in increasing order of key.
pub open spec fn sync_annotations_spec(c: GitOpsUpgradeController, node_name: Seq<char>, s: ProtocolUpgradeStep)
    -> Seq<(Seq<char>, Seq<char>)>
{
    let common = seq![
        ("stellar.org/protocol-config-ref"@, s.config_ref@),
        ("stellar.org/protocol-target"@, decimal(s.protocol_version as nat)),
        ("stellar.org/upgrade-managed-by"@, engine_name(c.engine)),
        ("stellar.org/upgrade-node"@, node_name),
        ("stellar.org/upgrade-sync-timeout-seconds"@, decimal(c.sync_timeout_secs as nat)),
    ];
    match c.engine {
        GitOpsEngine::ArgoCd => seq![
            ("argocd.argoproj.io/sync-options"@, "ApplyOutOfSyncOnly=true,PruneLast=true"@),
            ("argocd.argoproj.io/sync-wave"@, decimal(s.protocol_version as nat)),
        ] + common,
        GitOpsEngine::Flux => seq![
            ("kustomize.toolkit.fluxcd.io/force"@, "enabled"@),
            ("reconcile.fluxcd.io/requestedAt"@, signed_decimal(s.activate_at_unix as int)),
        ] + common,
    }
}

/// String pairs as character sequences.
pub open spec fn pair_views(v: Seq<(String, String)>) -> Seq<(Seq<char>, Seq<char>)> {
    v.map_values(|p: (String, String)| (p.0@, p.1@))
}

impl GitOpsUpgradeController {
    /// A controller for `engine` with the given sync timeout.
    pub fn new(engine: GitOpsEngine, sync_timeout_secs: u64) -> (r: Self)
        ensures
            r.engine == engine,
            r.sync_timeout_secs == sync_timeout_secs,
    {
        GitOpsUpgradeController { engine, sync_timeout_secs }
    }

    /// The upgrade step to apply now: among the steps above
    /// `current_protocol` whose activation time has come, the one of the
    /// lowest protocol version (the first on a tie); none when no step is due.
    pub fn next_due_step(&self, timeline: &ProtocolUpgradeTimeline, current_protocol: u32, now_unix: i64)
        -> (r: Option<ProtocolUpgradeStep>)
        ensures
            match r {
                Some(s) => exists|i: int| #[trigger] is_next_due(timeline.steps@, i, current_protocol, now_unix)
                    && s.protocol_version == timeline.steps@[i].protocol_version
                    && s.activate_at_unix == timeline.steps@[i].activate_at_unix
                    && s.config_ref@ == timeline.steps@[i].config_ref@,
                None => forall|j: int| 0 <= j < timeline.steps@.len()
                    ==> !#[trigger] is_due(timeline.steps@[j], current_protocol, now_unix),
            },
    {
        let steps = &timeline.steps;
        let mut best: Option<usize> = None;
        let mut i: usize = 0;
        while i < steps.len()
            invariant
                i <= steps.len(),
                match best {
                    Some(b) => b < i && is_due(steps@[b as int], current_protocol, now_unix)
                        && (forall|j: int| 0 <= j < i && #[trigger] is_due(steps@[j], current_protocol, now_unix)
                            ==> steps@[b as int].protocol_version <= steps@[j].protocol_version)
                        && (forall|j: int| 0 <= j < b && #[trigger] is_due(steps@[j], current_protocol, now_unix)
                            ==> steps@[b as int].protocol_version < steps@[j].protocol_version),
                    None => forall|j: int| 0 <= j < i ==> !#[trigger] is_due(steps@[j], current_protocol, now_unix),
                },
            decreases steps.len() - i,
        {
            let s = &steps[i];
            if s.protocol_version > current_protocol && s.activate_at_unix <= now_unix {
                match best {
                    Some(b) => {
                        if s.protocol_version < steps[b].protocol_version {
                            best = Some(i);
                        }
                    },
                    None => {
                        best = Some(i);
                    },
                }
            }
            i += 1;
        }
        match best {
            Some(b) => {
                let s = &steps[b];
                assert(is_next_due(steps@, b as int, current_protocol, now_unix));
                Some(ProtocolUpgradeStep {
                    protocol_version: s.protocol_version,
                    activate_at_unix: s.activate_at_unix,
                    config_ref: owned(s.config_ref.as_str()),
                })
            },
            None => None,
        }
    }

    /// The annotations asking the engine to sync `step` on the node named
    /// `node_name`, in increasing order of key: the target protocol and its
    /// configuration, the sync timeout, the managing engine and the node;
    /// for Argo CD the sync wave and options, for Flux a forced reconcile at
    /// the activation time.
    pub fn build_sync_annotations(&self, node_name: &str, step: &ProtocolUpgradeStep) -> (r: Vec<(String, String)>)
        ensures
            pair_views(r@) == sync_annotations_spec(*self, node_name@, *step),
    {
        let mut v: Vec<(String, String)> = Vec::new();
        match self.engine {
            GitOpsEngine::ArgoCd => {
                v.push((owned("argocd.argoproj.io/sync-options"), owned("ApplyOutOfSyncOnly=true,PruneLast=true")));
                v.push((owned("argocd.argoproj.io/sync-wave"), u64_to_string(step.protocol_version as u64)));
            },
            GitOpsEngine::Flux => {
                v.push((owned("kustomize.toolkit.fluxcd.io/force"), owned("enabled")));
                v.push((owned("reconcile.fluxcd.io/requestedAt"), i64_to_string(step.activate_at_unix)));
            },
        }
        v.push((owned("stellar.org/protocol-config-ref"), owned(step.config_ref.as_str())));
        v.push((owned("stellar.org/protocol-target"), u64_to_string(step.protocol_version as u64)));
        v.push((owned("stellar.org/upgrade-managed-by"), owned(self.engine.name())));
        v.push((owned("stellar.org/upgrade-node"), owned(node_name)));
        v.push((owned("stellar.org/upgrade-sync-timeout-seconds"), u64_to_string(self.sync_timeout_secs)));
        assert(pair_views(v@) =~= sync_annotations_spec(*self, node_name@, *step));
        v
    }

    /// The plan of a sync of `step`: its protocol, configuration and the
    /// annotations written.
    pub fn plan_for(&self, node_name: &str, step: &ProtocolUpgradeStep) -> (r: GitOpsUpgradePlan)
        ensures
            r.target_protocol == step.protocol_version,
            r.config_ref@ == step.config_ref@,
            pair_views(r.sync_annotations@) == sync_annotations_spec(*self, node_name@, *step),
    {
        GitOpsUpgradePlan {
            target_protocol: step.protocol_version,
            config_ref: owned(step.config_ref.as_str()),
            sync_annotations: self.build_sync_annotations(node_name, step),
        }
    }
}

/// A due step never goes backwards: the chosen step is above the current
/// protocol, and no due step has a lower version.
pub proof fn law_next_step_is_lowest_due(steps: Seq<ProtocolUpgradeStep>, i: int, current_protocol: u32, now_unix: i64, j: int)
    requires
        is_next_due(steps, i, current_protocol, now_unix),
        0 <= j < steps.len(),
        is_due(steps[j], current_protocol, now_unix),
    ensures
        current_protocol < steps[i].protocol_version <= steps[j].protocol_version,
        steps[i].activate_at_unix <= now_unix,
{
}

} // verus!
