//! Disaster-recovery (DR) decisions: peer selection, health scoring and the
//! failover state machine for primary/standby clusters.

use vstd::prelude::*;
use crate::text::{owned, str_eq};

verus! {

/// Annotation that tracks the current failover state.
pub const DR_FAILOVER_ANNOTATION: &'static str = "stellar.org/dr-failover-active";
/// Annotation that records the time of the last successful sync.
pub const DR_LAST_SYNC_ANNOTATION: &'static str = "stellar.org/dr-last-sync-time";

/// Role a cluster plays in a DR pair.
#[derive(Clone, Copy, Debug, PartialEq, Eq, Structural)]
pub enum DRRole {
    Primary,
    Standby,
}

/// How a standby keeps its ledger state in step with the primary.
#[derive(Clone, Copy, Debug, PartialEq, Eq, Structural)]
pub enum DRSyncStrategy {
    Consensus,
    PeerTracking,
    ArchiveSync,
    StreamingLedger,
}

/// External DNS record that is repointed on failover.
#[derive(Clone, Debug)]
pub struct ExternalDNSConfig {
    pub hostname: String,
    pub provider: Option<String>,
}

/// History-archive integrity checking attached to a DR configuration.
#[derive(Clone, Debug)]
pub struct ArchiveIntegrityConfig {
    pub enabled: bool,
}

/// DR configuration of a node.
#[derive(Clone, Debug)]
pub struct DisasterRecoveryConfig {
    pub enabled: bool,
    pub role: DRRole,
    pub peer_cluster_id: String,
    pub sync_strategy: DRSyncStrategy,
    pub failover_dns: Option<ExternalDNSConfig>,
    pub health_check_interval: u32,
    pub drill_schedule: Option<String>,
    pub archive_integrity_config: Option<ArchiveIntegrityConfig>,
}

/// Observed health of one peer cluster.
#[derive(Clone, Debug)]
pub struct DRPeerHealth {
    pub cluster_id: String,
    pub health: String,
    pub last_contact: Option<String>,
    pub priority: Option<u32>,
}

/// DR status reported on a node.
#[derive(Clone, Debug)]
pub struct DisasterRecoveryStatus {
    pub current_role: Option<DRRole>,
    pub peer_health: Option<String>,
    pub last_peer_contact: Option<String>,
    pub sync_lag: Option<u64>,
    pub failover_active: bool,
    pub peer_health_map: Option<Vec<DRPeerHealth>>,
    pub last_failover_time: Option<String>,
    pub last_failover_reason: Option<String>,
    pub active_peer_cluster_id: Option<String>,
    pub last_check_time: Option<String>,
}

impl Default for DisasterRecoveryStatus {
    fn default() -> (r: Self)
        ensures
            r.current_role is None,
            r.peer_health is None,
            r.last_peer_contact is None,
            r.sync_lag is None,
            !r.failover_active,
            r.peer_health_map is None,
            r.last_failover_time is None,
            r.last_failover_reason is None,
            r.active_peer_cluster_id is None,
            r.last_check_time is None,
    {
        DisasterRecoveryStatus {
            current_role: None,
            peer_health: None,
            last_peer_contact: None,
            sync_lag: None,
            failover_active: false,
            peer_health_map: None,
            last_failover_time: None,
            last_failover_reason: None,
            active_peer_cluster_id: None,
            last_check_time: None,
        }
    }
}

/// A backup (peer) cluster declared for cross-cluster failover.
#[derive(Clone, Debug)]
pub struct PeerClusterConfig {
    pub cluster_id: String,
    pub endpoint: String,
    pub latency_threshold_ms: Option<u32>,
    pub region: Option<String>,
    pub priority: u32,
    pub port: Option<u16>,
    pub enabled: bool,
}

/// A peer cluster considered for health checks and failover, with its priority.
#[derive(Clone, Debug)]
pub struct PeerCandidate {
    pub cluster_id: String,
    pub priority: u32,
}

impl PeerCandidate {
    /// The candidate as (cluster id, priority).
    pub open spec fn view(&self) -> (Seq<char>, u32) {
        (self.cluster_id@, self.priority)
    }

    /// A copy of the candidate.
    pub fn duplicate(&self) -> (r: PeerCandidate)
        ensures
            r.view() == self.view(),
    {
        PeerCandidate { cluster_id: self.cluster_id.clone(), priority: self.priority }
    }
}

/// Candidates with priority exactly `q`, in their order in `s`.
pub open spec fn with_priority(s: Seq<(Seq<char>, u32)>, q: u32) -> Seq<(Seq<char>, u32)>
    decreases s.len(),
{
    if s.len() == 0 {
        s
    } else if s.last().1 == q {
        with_priority(s.drop_last(), q).push(s.last())
    } else {
        with_priority(s.drop_last(), q)
    }
}

/// Priorities never increase along `s`.
pub open spec fn priority_descending(s: Seq<(Seq<char>, u32)>) -> bool {
    forall|i: int, j: int| 0 <= i < j < s.len() ==> s[i].1 >= s[j].1
}

/// `r` is `s` sorted by descending priority, candidates of equal priority
/// keeping their order in `s` (a stable sort).
pub open spec fn stable_priority_sort_of(r: Seq<(Seq<char>, u32)>, s: Seq<(Seq<char>, u32)>) -> bool {
    &&& r.len() == s.len()
    &&& priority_descending(r)
    &&& forall|q: u32| #[trigger] with_priority(r, q) == with_priority(s, q)
}

/// The enabled peers of a cross-cluster configuration, as candidates.
pub open spec fn enabled_candidates(peers: Seq<PeerClusterConfig>) -> Seq<(Seq<char>, u32)>
    decreases peers.len(),
{
    if peers.len() == 0 {
        Seq::empty()
    } else if peers.last().enabled {
        enabled_candidates(peers.drop_last()).push((peers.last().cluster_id@, peers.last().priority))
    } else {
        enabled_candidates(peers.drop_last())
    }
}

proof fn lemma_with_priority_concat(a: Seq<(Seq<char>, u32)>, b: Seq<(Seq<char>, u32)>, q: u32)
    ensures
        with_priority(a + b, q) == with_priority(a, q) + with_priority(b, q),
    decreases b.len(),
{
    if b.len() == 0 {
        assert(a + b =~= a);
        assert(with_priority(b, q) =~= Seq::<(Seq<char>, u32)>::empty());
    } else {
        lemma_with_priority_concat(a, b.drop_last(), q);
        assert((a + b).drop_last() =~= a + b.drop_last());
        assert((a + b).last() == b.last());
        if b.last().1 == q {
            assert(with_priority(a, q) + with_priority(b.drop_last(), q).push(b.last())
                =~= (with_priority(a, q) + with_priority(b.drop_last(), q)).push(b.last()));
        }
    }
}

proof fn lemma_with_priority_none_below(s: Seq<(Seq<char>, u32)>, q: u32)
    requires
        forall|i: int| 0 <= i < s.len() ==> s[i].1 < q,
    ensures
        with_priority(s, q) =~= Seq::<(Seq<char>, u32)>::empty(),
    decreases s.len(),
{
    if s.len() > 0 {
        lemma_with_priority_none_below(s.drop_last(), q);
    }
}

proof fn lemma_with_priority_single(x: (Seq<char>, u32), q: u32)
    ensures
        with_priority(seq![x], q) == (if x.1 == q { seq![x] } else { Seq::<(Seq<char>, u32)>::empty() }),
{
    assert(seq![x].drop_last() =~= Seq::<(Seq<char>, u32)>::empty());
    assert(seq![x].last() == x);
    assert(with_priority(Seq::<(Seq<char>, u32)>::empty(), q) == Seq::<(Seq<char>, u32)>::empty());
    if x.1 == q {
        assert(Seq::<(Seq<char>, u32)>::empty().push(x) =~= seq![x]);
    }
}

/// Inserting `x` right after every candidate of priority at least `x`'s keeps
/// the sequence sorted and appends `x` to its own priority group.
proof fn lemma_insert_sorted(r: Seq<(Seq<char>, u32)>, pos: int, x: (Seq<char>, u32))
    requires
        0 <= pos <= r.len(),
        priority_descending(r),
        forall|i: int| 0 <= i < pos ==> r[i].1 >= x.1,
        forall|i: int| pos <= i < r.len() ==> r[i].1 < x.1,
    ensures
        priority_descending(r.insert(pos, x)),
        forall|q: u32| #[trigger] with_priority(r.insert(pos, x), q)
            == if q == x.1 { with_priority(r, q).push(x) } else { with_priority(r, q) },
{
    let r2 = r.insert(pos, x);
    assert(r2 =~= r.take(pos) + seq![x] + r.skip(pos));
    assert(r =~= r.take(pos) + r.skip(pos));
    assert forall|q: u32| #[trigger] with_priority(r.insert(pos, x), q)
        == if q == x.1 { with_priority(r, q).push(x) } else { with_priority(r, q) } by {
        lemma_with_priority_concat(r.take(pos) + seq![x], r.skip(pos), q);
        lemma_with_priority_concat(r.take(pos), seq![x], q);
        lemma_with_priority_concat(r.take(pos), r.skip(pos), q);
        lemma_with_priority_single(x, q);
        if q == x.1 {
            lemma_with_priority_none_below(r.skip(pos), q);
            assert(with_priority(r.take(pos), q) + seq![x] =~= with_priority(r.take(pos), q).push(x));
            assert(with_priority(r.take(pos), q) + Seq::<(Seq<char>, u32)>::empty() =~= with_priority(r.take(pos), q));
        } else {
            assert(with_priority(r.take(pos), q) + Seq::<(Seq<char>, u32)>::empty() =~= with_priority(r.take(pos), q));
        }
    }
}

/// The peers that DR health checks and failover consider.
///
/// With `peer_cluster_id == "auto"`, the enabled peers of the cross-cluster
/// configuration, most preferred (highest priority) first, peers of equal
/// priority in declaration order; none when there is no cross-cluster
/// configuration. Otherwise the single named peer with priority 100.
pub fn resolve_peer_candidates(peer_cluster_id: &str, cross_cluster_peers: Option<&Vec<PeerClusterConfig>>)
    -> (r: Vec<PeerCandidate>)
    ensures
        peer_cluster_id@ == "auto"@ ==> match cross_cluster_peers {
            None => r.len() == 0,
            Some(peers) => stable_priority_sort_of(
                r@.map_values(|c: PeerCandidate| c.view()),
                enabled_candidates(peers@),
            ),
        },
        peer_cluster_id@ != "auto"@ ==> r@.map_values(|c: PeerCandidate| c.view())
            == seq![(peer_cluster_id@, 100u32)],
{
    if str_eq(peer_cluster_id, "auto") {
        match cross_cluster_peers {
            None => Vec::new(),
            Some(peers) => {
                let mut out: Vec<PeerCandidate> = Vec::new();
                let mut i: usize = 0;
                proof {
                    assert(out@.map_values(|c: PeerCandidate| c.view()) =~= Seq::<(Seq<char>, u32)>::empty());
                    assert(peers@.take(0) =~= Seq::<PeerClusterConfig>::empty());
                    assert(enabled_candidates(peers@.take(0)) =~= Seq::<(Seq<char>, u32)>::empty());
                    assert forall|q: u32| #[trigger] with_priority(Seq::<(Seq<char>, u32)>::empty(), q)
                        == Seq::<(Seq<char>, u32)>::empty() by {}
                }
                while i < peers.len()
                    invariant
                        i <= peers.len(),
                        stable_priority_sort_of(
                            out@.map_values(|c: PeerCandidate| c.view()),
                            enabled_candidates(peers@.take(i as int)),
                        ),
                    decreases peers.len() - i,
                {
                    let p = &peers[i];
                    assert(peers@.take(i + 1).drop_last() =~= peers@.take(i as int));
                    assert(peers@.take(i + 1).last() == peers@[i as int]);
                    assert(p.enabled ==> enabled_candidates(peers@.take(i + 1))
                        == enabled_candidates(peers@.take(i as int)).push((p.cluster_id@, p.priority)));
                    assert(!p.enabled ==> enabled_candidates(peers@.take(i + 1))
                        == enabled_candidates(peers@.take(i as int)));
                    if p.enabled {
                        let ghost before = out@.map_values(|c: PeerCandidate| c.view());
                        assert(stable_priority_sort_of(before, enabled_candidates(peers@.take(i as int))));
                        let mut pos: usize = 0;
                        while pos < out.len() && out[pos].priority >= p.priority
                            invariant
                                pos <= out.len(),
                                before == out@.map_values(|c: PeerCandidate| c.view()),
                                forall|k: int| 0 <= k < pos ==> before[k].1 >= p.priority,
                            decreases out.len() - pos,
                        {
                            pos += 1;
                        }
                        let ghost x = (p.cluster_id@, p.priority);
                        proof {
                            if pos < out.len() {
                                assert(before[pos as int].1 < p.priority);
                            }
                            assert forall|k: int| pos <= k < before.len() implies before[k].1 < x.1 by {
                                if pos < before.len() {
                                    assert(before[pos as int].1 >= before[k].1);
                                }
                            }
                            lemma_insert_sorted(before, pos as int, x);
                        }
                        out.insert(pos, PeerCandidate { cluster_id: p.cluster_id.clone(), priority: p.priority });
                        let ghost after = out@.map_values(|c: PeerCandidate| c.view());
                        proof {
                            assert(after =~= before.insert(pos as int, x));
                            assert forall|q: u32| #[trigger] with_priority(after, q)
                                == with_priority(enabled_candidates(peers@.take(i + 1)), q) by {
                                let e = enabled_candidates(peers@.take(i as int));
                                assert(with_priority(before, q) == with_priority(e, q));
                                assert(e.push(x).drop_last() =~= e);
                                assert(e.push(x).last() == x);
                                assert(with_priority(e.push(x), q)
                                    == if q == x.1 { with_priority(e, q).push(x) } else { with_priority(e, q) });
                                assert(with_priority(before.insert(pos as int, x), q)
                                    == if q == x.1 { with_priority(before, q).push(x) } else { with_priority(before, q) });
                            }
                        }
                    }
                    i += 1;
                }
                assert(peers@.take(peers.len() as int) =~= peers@);
                out
            },
        }
    } else {
        let mut out: Vec<PeerCandidate> = Vec::new();
        out.push(PeerCandidate { cluster_id: owned(peer_cluster_id), priority: 100 });
        assert(out@.map_values(|c: PeerCandidate| c.view()) =~= seq![(peer_cluster_id@, 100u32)]);
        out
    }
}

} // verus!

verus! {

/// The candidate `max_by_key` picks: the last one of highest priority.
pub open spec fn is_best_peer(s: Seq<(Seq<char>, u32)>, i: int) -> bool {
    &&& 0 <= i < s.len()
    &&& forall|j: int| 0 <= j < s.len() ==> s[j].1 <= s[i].1
    &&& forall|j: int| i < j < s.len() ==> s[j].1 < s[i].1
}

/// The most preferred peer: highest priority, the last such one on ties;
/// none for an empty list.
pub fn select_best_peer(peers: &[PeerCandidate]) -> (r: Option<PeerCandidate>)
    ensures
        peers.len() == 0 <==> r is None,
        r matches Some(b) ==> exists|i: int|
            is_best_peer(peers@.map_values(|c: PeerCandidate| c.view()), i)
            && #[trigger] peers@[i].view() == b.view(),
{
    if peers.len() == 0 {
        return None;
    }
    let ghost s = peers@.map_values(|c: PeerCandidate| c.view());
    let mut best: usize = 0;
    let mut i: usize = 1;
    while i < peers.len()
        invariant
            1 <= i <= peers.len(),
            best < i,
            s == peers@.map_values(|c: PeerCandidate| c.view()),
            forall|j: int| 0 <= j < i ==> s[j].1 <= s[best as int].1,
            forall|j: int| best < j < i ==> s[j].1 < s[best as int].1,
        decreases peers.len() - i,
    {
        if peers[i].priority >= peers[best].priority {
            best = i;
        }
        i += 1;
    }
    let b = peers[best].duplicate();
    assert(is_best_peer(s, best as int));
    assert(peers@[best as int].view() == b.view());
    Some(b)
}

/// What the health-score computation reads from a node's status.
#[derive(Clone, Copy, Debug)]
pub struct NodeHealthInput {
    pub ready: bool,
    pub sync_lag: Option<u64>,
}

/// Local health score (0–100) used to gate automated failover.
pub open spec fn health_score_spec(status: Option<NodeHealthInput>) -> u32 {
    match status {
        None => 0,
        Some(st) => {
            let base: int = if st.ready { 100 } else { 50 };
            let after_small: int = match st.sync_lag {
                Some(lag) if lag > 100 => if base >= 20 { base - 20 } else { 0 },
                _ => base,
            };
            let after_big: int = match st.sync_lag {
                Some(lag) if lag > 1000 => if after_small >= 30 { after_small - 30 } else { 0 },
                _ => after_small,
            };
            after_big as u32
        },
    }
}

/// Local health score: 100, minus 50 when not ready, minus 20 when the DR
/// sync lag exceeds 100 ledgers and a further 30 when it exceeds 1000
/// (never below zero); 0 when the node has no status.
pub fn calculate_health_score(status: Option<NodeHealthInput>) -> (r: u32)
    ensures
        r == health_score_spec(status),
        match status {
            None => r == 0,
            Some(st) => r as int == 100
                - (if st.ready { 0int } else { 50int })
                - (if st.sync_lag matches Some(l) && l > 100 { 20int } else { 0int })
                - (if st.sync_lag matches Some(l) && l > 1000 { 30int } else { 0int }),
        },
{
    match status {
        None => 0,
        Some(st) => {
            let mut score: u32 = 100;
            if !st.ready {
                score -= 50;
            }
            if let Some(lag) = st.sync_lag {
                if lag > 100 {
                    score = score.saturating_sub(20);
                }
                if lag > 1000 {
                    score = score.saturating_sub(30);
                }
            }
            score
        },
    }
}

/// Health of a cluster taking part in multi-region failover.
#[derive(Clone, Copy, Debug, PartialEq, Eq, Structural)]
pub enum ClusterHealthStatus {
    Healthy,
    Degraded,
    Unreachable,
}

/// A cluster of a multi-region configuration.
#[derive(Clone, Debug)]
pub struct ClusterConfig {
    pub name: String,
    pub api_endpoint: String,
}

/// The health recorded for `name` (the first record for it), if any.
pub open spec fn lookup_health(health: Seq<(Seq<char>, ClusterHealthStatus)>, name: Seq<char>)
    -> Option<ClusterHealthStatus>
    decreases health.len(),
{
    if health.len() == 0 {
        None
    } else if health[0].0 == name {
        Some(health[0].1)
    } else {
        lookup_health(health.drop_first(), name)
    }
}

fn health_of(health: &[(String, ClusterHealthStatus)], name: &String) -> (r: Option<ClusterHealthStatus>)
    ensures
        r == lookup_health(health@.map_values(|p: (String, ClusterHealthStatus)| (p.0@, p.1)), name@),
{
    let ghost hs = health@.map_values(|p: (String, ClusterHealthStatus)| (p.0@, p.1));
    let mut i: usize = 0;
    assert(hs.skip(0) =~= hs);
    while i < health.len()
        invariant
            i <= health.len(),
            hs == health@.map_values(|p: (String, ClusterHealthStatus)| (p.0@, p.1)),
            lookup_health(hs, name@) == lookup_health(hs.skip(i as int), name@),
        decreases health.len() - i,
    {
        let ghost rest = hs.skip(i as int);
        assert(rest[0] == hs[i as int]);
        assert(rest.drop_first() =~= hs.skip(i + 1));
        if str_eq(health[i].0.as_str(), name.as_str()) {
            return Some(health[i].1);
        }
        i += 1;
    }
    assert(hs.skip(i as int) =~= Seq::<(Seq<char>, ClusterHealthStatus)>::empty());
    None
}

/// The first cluster, in declaration order, whose recorded health is `Healthy`.
pub fn select_new_primary(clusters: &[ClusterConfig], health: &[(String, ClusterHealthStatus)]) -> (r: Option<String>)
    ensures
        r is None <==> forall|i: int| 0 <= i < clusters.len() ==>
            lookup_health(health@.map_values(|p: (String, ClusterHealthStatus)| (p.0@, p.1)), #[trigger] clusters@[i].name@)
                != Some(ClusterHealthStatus::Healthy),
        r matches Some(n) ==> exists|i: int| 0 <= i < clusters.len() && #[trigger] clusters@[i].name@ == n@
            && lookup_health(health@.map_values(|p: (String, ClusterHealthStatus)| (p.0@, p.1)), clusters@[i].name@)
                == Some(ClusterHealthStatus::Healthy)
            && forall|j: int| 0 <= j < i ==> lookup_health(health@.map_values(|p: (String, ClusterHealthStatus)| (p.0@, p.1)), #[trigger] clusters@[j].name@)
                != Some(ClusterHealthStatus::Healthy),
{
    let ghost hs = health@.map_values(|p: (String, ClusterHealthStatus)| (p.0@, p.1));
    let mut i: usize = 0;
    while i < clusters.len()
        invariant
            i <= clusters.len(),
            hs == health@.map_values(|p: (String, ClusterHealthStatus)| (p.0@, p.1)),
            forall|j: int| 0 <= j < i ==> lookup_health(hs, #[trigger] clusters@[j].name@) != Some(ClusterHealthStatus::Healthy),
        decreases clusters.len() - i,
    {
        if health_of(health, &clusters[i].name) == Some(ClusterHealthStatus::Healthy) {
            let n = clusters[i].name.clone();
            assert(clusters@[i as int].name@ == n@);
            return Some(n);
        }
        i += 1;
    }
    None
}

} // verus!

verus! {

/// The fields of a DR policy that the failover decision reads.
#[derive(Clone, Copy, Debug)]
pub struct DisasterRecoveryPolicySpec {
    pub automated_failover: bool,
    pub min_health_score: u32,
    pub rto_seconds: u32,
    pub rpo_seconds: u32,
}

/// What a DR evaluation decided about failover.
#[derive(Clone, Copy, Debug, PartialEq, Eq, Structural)]
pub enum FailoverAction {
    /// The primary is unreachable but the local health score is below the
    /// policy minimum: nothing else is changed.
    Aborted,
    /// A new failover was started: this standby becomes primary.
    Initiated,
    /// The primary is unreachable and a failover is already in progress.
    AlreadyActive,
    /// The primary is reachable again after a failover; failback is manual.
    AwaitingFailback,
    /// No failover condition: the configured role is recorded.
    Steady,
}

/// The failover decision for a role, peer reachability and policy.
pub open spec fn failover_action(
    role: DRRole,
    primary_healthy: bool,
    auto_failover: bool,
    health_score: u32,
    min_health_score: u32,
    failover_active: bool,
) -> FailoverAction {
    if role == DRRole::Standby && !primary_healthy && auto_failover {
        if health_score < min_health_score {
            FailoverAction::Aborted
        } else if !failover_active {
            FailoverAction::Initiated
        } else {
            FailoverAction::AlreadyActive
        }
    } else if role == DRRole::Standby && primary_healthy && failover_active {
        FailoverAction::AwaitingFailback
    } else {
        FailoverAction::Steady
    }
}

/// The first candidate is the primary peer; it counts as healthy when some
/// healthy candidate carries its cluster id.
pub open spec fn primary_healthy_spec(peers: Seq<(Seq<char>, u32)>, healthy: Seq<bool>) -> bool {
    peers.len() > 0 && exists|i: int| 0 <= i < peers.len() && #[trigger] healthy[i] && peers[i].0 == peers[0].0
}

/// The candidates whose health check succeeded, in order.
pub open spec fn healthy_candidates(peers: Seq<(Seq<char>, u32)>, healthy: Seq<bool>) -> Seq<(Seq<char>, u32)>
    decreases peers.len(),
{
    if peers.len() == 0 || healthy.len() != peers.len() {
        Seq::empty()
    } else if healthy.last() {
        healthy_candidates(peers.drop_last(), healthy.drop_last()).push(peers.last())
    } else {
        healthy_candidates(peers.drop_last(), healthy.drop_last())
    }
}

/// The characters of an optional string.
pub open spec fn opt_str(o: Option<String>) -> Option<Seq<char>> {
    match o {
        Some(s) => Some(s@),
        None => None,
    }
}

/// Health text of a peer check.
pub open spec fn health_text(ok: bool) -> Seq<char> {
    if ok { "Healthy"@ } else { "Unreachable"@ }
}

/// Entry `i` of the peer health map matches candidate `i` and its check.
pub open spec fn peer_health_entry_ok(e: DRPeerHealth, c: (Seq<char>, u32), ok: bool, now: Seq<char>) -> bool {
    &&& e.cluster_id@ == c.0
    &&& e.health@ == health_text(ok)
    &&& opt_str(e.last_contact) == (if ok { Some(now) } else { None::<Seq<char>> })
    &&& e.priority == Some(c.1)
}

/// The candidates as (cluster id, priority) pairs.
pub open spec fn cands(peers: Seq<PeerCandidate>) -> Seq<(Seq<char>, u32)> {
    peers.map_values(|c: PeerCandidate| c.view())
}

/// The failover decision of one DR evaluation.
pub open spec fn dr_action(
    config: &DisasterRecoveryConfig,
    status: DisasterRecoveryStatus,
    policy: Option<DisasterRecoveryPolicySpec>,
    peers: Seq<PeerCandidate>,
    healthy: Seq<bool>,
    health_score: u32,
) -> FailoverAction {
    failover_action(
        config.role,
        primary_healthy_spec(cands(peers), healthy),
        match policy { Some(p) => p.automated_failover, None => true },
        health_score,
        match policy { Some(p) => p.min_health_score, None => 0 },
        status.failover_active,
    )
}

/// Outcome of one DR evaluation.
#[derive(Debug)]
pub struct DrEvaluation {
    /// The updated DR status.
    pub status: DisasterRecoveryStatus,
    /// What was decided about failover.
    pub action: FailoverAction,
    /// The failover DNS record must be repointed at this cluster.
    pub update_dns: bool,
    /// The peer whose ledger sequence the standby should track, when it does.
    pub sync_target: Option<String>,
}

fn health_string(ok: bool) -> (r: String)
    ensures
        r@ == health_text(ok),
{
    if ok { owned("Healthy") } else { owned("Unreachable") }
}

/// What one DR evaluation decides and records, for the configuration, the
/// previous status, the policy, the resolved peers (primary first), the health
/// of each, the local health score and the time `now`.
pub open spec fn dr_evaluation_post(
    config: &DisasterRecoveryConfig,
    status: DisasterRecoveryStatus,
    policy: Option<DisasterRecoveryPolicySpec>,
    peers: Seq<PeerCandidate>,
    healthy: Seq<bool>,
    health_score: u32,
    now: Seq<char>,
    r: DrEvaluation,
) -> bool {
    &&& r.action == dr_action(config, status, policy, peers, healthy, health_score)
    &&& r.status.peer_health_map matches Some(m) && m.len() == peers.len()
            && forall|i: int| 0 <= i < m.len() ==> #[trigger] peer_health_entry_ok(m[i], cands(peers)[i], healthy[i], now)
    &&& opt_str(r.status.peer_health) == Some(health_text(primary_healthy_spec(cands(peers), healthy)))
    &&& opt_str(r.status.last_peer_contact) == if primary_healthy_spec(cands(peers), healthy) { Some(now) } else { opt_str(status.last_peer_contact) }
    &&& r.status.sync_lag == status.sync_lag
    &&& r.status.failover_active == (status.failover_active || r.action == FailoverAction::Initiated)
    &&& r.status.current_role == match r.action {
            FailoverAction::Initiated => Some(DRRole::Primary),
            FailoverAction::Steady => Some(config.role),
            _ => status.current_role,
        }
    &&& opt_str(r.status.last_failover_time) == if r.action == FailoverAction::Initiated { Some(now) } else { opt_str(status.last_failover_time) }
    &&& opt_str(r.status.last_failover_reason) == if r.action == FailoverAction::Initiated { Some("Primary peer unreachable"@) } else { opt_str(status.last_failover_reason) }
    &&& r.action == FailoverAction::Initiated && healthy_candidates(cands(peers), healthy).len() > 0 ==> exists|i: int|
            is_best_peer(healthy_candidates(cands(peers), healthy), i)
            && opt_str(r.status.active_peer_cluster_id) == Some(#[trigger] healthy_candidates(cands(peers), healthy)[i].0)
    &&& r.action == FailoverAction::Initiated && healthy_candidates(cands(peers), healthy).len() == 0
            ==> opt_str(r.status.active_peer_cluster_id) == opt_str(status.active_peer_cluster_id)
    &&& r.action == FailoverAction::Steady ==> opt_str(r.status.active_peer_cluster_id)
            == if peers.len() > 0 { Some(peers[0].cluster_id@) } else { None::<Seq<char>> }
    &&& r.action != FailoverAction::Initiated && r.action != FailoverAction::Steady
            ==> opt_str(r.status.active_peer_cluster_id) == opt_str(status.active_peer_cluster_id)
    &&& opt_str(r.status.last_check_time) == if r.action == FailoverAction::Aborted { opt_str(status.last_check_time) } else { Some(now) }
    &&& r.update_dns == (r.action == FailoverAction::Initiated && config.failover_dns is Some)
    &&& opt_str(r.sync_target) == if r.action != FailoverAction::Aborted && config.role == DRRole::Standby
            && !r.status.failover_active && config.sync_strategy == DRSyncStrategy::PeerTracking {
                Some(match opt_str(r.status.active_peer_cluster_id) { Some(id) => id, None => config.peer_cluster_id@ })
            } else {
                None::<Seq<char>>
            }
}

/// One pass of the DR state machine.
///
/// `peers` are the resolved peer candidates (primary first) and `healthy[i]`
/// the result of the health check of `peers[i]`; `policy` is the referenced
/// DR policy, if any; `health_score` the local health score and `now` the
/// current time as RFC 3339 text.
pub fn evaluate_failover(
    config: &DisasterRecoveryConfig,
    status: DisasterRecoveryStatus,
    policy: Option<DisasterRecoveryPolicySpec>,
    peers: &Vec<PeerCandidate>,
    healthy: &Vec<bool>,
    health_score: u32,
    now: &str,
) -> (r: DrEvaluation)
    requires
        healthy.len() == peers.len(),
    ensures
        dr_evaluation_post(config, status, policy, peers@, healthy@, health_score, now@, r),
{
    let ghost ps = peers@.map_values(|c: PeerCandidate| c.view());
    let mut status = status;
    let ghost old_status = status;

    // 1. Peer health observations.
    let mut map: Vec<DRPeerHealth> = Vec::new();
    let mut healthy_peers: Vec<PeerCandidate> = Vec::new();
    let mut i: usize = 0;
    while i < peers.len()
        invariant
            i <= peers.len(),
            healthy.len() == peers.len(),
            ps == peers@.map_values(|c: PeerCandidate| c.view()),
            map.len() == i,
            forall|k: int| 0 <= k < i ==> #[trigger] peer_health_entry_ok(map@[k], ps[k], healthy@[k], now@),
            healthy_peers@.map_values(|c: PeerCandidate| c.view()) == healthy_candidates(ps.take(i as int), healthy@.take(i as int)),
        decreases peers.len() - i,
    {
        let ok = healthy[i];
        let p = &peers[i];
        let last_contact = if ok { Some(owned(now)) } else { None };
        map.push(DRPeerHealth {
            cluster_id: p.cluster_id.clone(),
            health: health_string(ok),
            last_contact,
            priority: Some(p.priority),
        });
        let ghost hv_before = healthy_peers@.map_values(|c: PeerCandidate| c.view());
        if ok {
            healthy_peers.push(p.duplicate());
        }
        proof {
            assert(ps.take(i + 1).drop_last() =~= ps.take(i as int));
            assert(healthy@.take(i + 1).drop_last() =~= healthy@.take(i as int));
            assert(ps.take(i + 1).last() == ps[i as int]);
            assert(healthy@.take(i + 1).last() == healthy@[i as int]);
            assert(healthy_peers@.map_values(|c: PeerCandidate| c.view())
                =~= healthy_candidates(ps.take(i + 1), healthy@.take(i + 1)));
            assert(peer_health_entry_ok(map@[i as int], ps[i as int], healthy@[i as int], now@));
        }
        i += 1;
    }
    assert(ps.take(peers.len() as int) =~= ps);
    assert(healthy@.take(peers.len() as int) =~= healthy@);

    // The primary peer is the first candidate.
    let mut primary_healthy = false;
    if peers.len() > 0 {
        let mut j: usize = 0;
        while j < peers.len()
            invariant
                j <= peers.len(),
                peers.len() > 0,
                healthy.len() == peers.len(),
                ps == peers@.map_values(|c: PeerCandidate| c.view()),
                primary_healthy == exists|k: int| 0 <= k < j && #[trigger] healthy@[k] && ps[k].0 == ps[0].0,
            decreases peers.len() - j,
        {
            if healthy[j] && str_eq(peers[j].cluster_id.as_str(), peers[0].cluster_id.as_str()) {
                primary_healthy = true;
            }
            proof {
                if healthy@[j as int] && ps[j as int].0 == ps[0].0 {
                    assert(exists|k: int| 0 <= k < j + 1 && #[trigger] healthy@[k] && ps[k].0 == ps[0].0);
                }
            }
            j += 1;
        }
    }
    assert(primary_healthy == primary_healthy_spec(ps, healthy@));

    status.peer_health_map = Some(map);
    status.peer_health = Some(health_string(primary_healthy));
    if primary_healthy {
        status.last_peer_contact = Some(owned(now));
    }

    // 2. Failover decision.
    let auto_failover = match policy { Some(p) => p.automated_failover, None => true };
    let min_score = match policy { Some(p) => p.min_health_score, None => 0 };
    let action = if config.role == DRRole::Standby && !primary_healthy && auto_failover {
        if health_score < min_score {
            FailoverAction::Aborted
        } else if !status.failover_active {
            FailoverAction::Initiated
        } else {
            FailoverAction::AlreadyActive
        }
    } else if config.role == DRRole::Standby && primary_healthy && status.failover_active {
        FailoverAction::AwaitingFailback
    } else {
        FailoverAction::Steady
    };

    if action == FailoverAction::Aborted {
        return DrEvaluation { status, action, update_dns: false, sync_target: None };
    }

    let mut update_dns = false;
    if action == FailoverAction::Initiated {
        status.failover_active = true;
        status.current_role = Some(DRRole::Primary);
        status.last_failover_time = Some(owned(now));
        status.last_failover_reason = Some(owned("Primary peer unreachable"));
        update_dns = config.failover_dns.is_some();
        let chosen = select_best_peer(&healthy_peers);
        if let Some(best) = chosen {
            proof {
                let hc = healthy_peers@.map_values(|c: PeerCandidate| c.view());
                let k = choose|k: int| is_best_peer(hc, k) && #[trigger] healthy_peers@[k].view() == best.view();
                assert(hc[k] == healthy_peers@[k].view());
                assert(is_best_peer(hc, k) && Some(best.cluster_id@) == Some(hc[k].0));
            }
            status.active_peer_cluster_id = Some(best.cluster_id);
        }
    } else if action == FailoverAction::Steady {
        status.current_role = Some(config.role);
        status.active_peer_cluster_id = if peers.len() > 0 { Some(peers[0].cluster_id.clone()) } else { None };
    }
    status.last_check_time = Some(owned(now));

    // 3. Which peer a tracking standby follows.
    let sync_target = if config.role == DRRole::Standby && !status.failover_active
        && config.sync_strategy == DRSyncStrategy::PeerTracking {
        match &status.active_peer_cluster_id {
            Some(id) => Some(id.clone()),
            None => Some(config.peer_cluster_id.clone()),
        }
    } else {
        None
    };
    DrEvaluation { status, action, update_dns, sync_target }
}

/// One DR reconciliation: nothing is evaluated for a node without a DR
/// configuration or with DR disabled; otherwise one pass of the DR state
/// machine (`evaluate_failover`) on the given observations.
pub fn dr_step(
    dr_config: Option<&DisasterRecoveryConfig>,
    status: DisasterRecoveryStatus,
    policy: Option<DisasterRecoveryPolicySpec>,
    peers: &Vec<PeerCandidate>,
    healthy: &Vec<bool>,
    health_score: u32,
    now: &str,
) -> (r: Option<DrEvaluation>)
    requires
        healthy.len() == peers.len(),
    ensures
        match dr_config {
            Some(c) => if c.enabled {
                r matches Some(e) && dr_evaluation_post(c, status, policy, peers@, healthy@, health_score, now@, e)
            } else {
                r is None
            },
            None => r is None,
        },
{
    match dr_config {
        Some(c) => {
            if c.enabled {
                Some(evaluate_failover(c, status, policy, peers, healthy, health_score, now))
            } else {
                None
            }
        },
        None => None,
    }
}

/// Ledgers the standby trails the peer by (zero when it is ahead).
pub fn sync_lag(peer_ledger: u64, local_ledger: u64) -> (r: u64)
    ensures
        r == if peer_ledger >= local_ledger { (peer_ledger - local_ledger) as u64 } else { 0 },
{
    peer_ledger.saturating_sub(local_ledger)
}

/// Records a measured sync lag in the status.
pub fn record_sync_lag(status: &mut DisasterRecoveryStatus, peer_ledger: u64, local_ledger: u64)
    ensures
        final(status).sync_lag == Some(if peer_ledger >= local_ledger { (peer_ledger - local_ledger) as u64 } else { 0u64 }),
        final(status).failover_active == old(status).failover_active,
        final(status).current_role == old(status).current_role,
{
    status.sync_lag = Some(sync_lag(peer_ledger, local_ledger));
}

/// Compliance of a measured objective against its target.
#[derive(Clone, Copy, Debug, PartialEq, Eq, Structural)]
pub enum ComplianceStatus {
    Compliant,
    NonCompliant,
}

/// A measured RTO or RPO is compliant when it does not exceed its target.
pub fn compliance_for(measured_seconds: u32, target_seconds: u32) -> (r: ComplianceStatus)
    ensures
        r == if measured_seconds <= target_seconds { ComplianceStatus::Compliant } else { ComplianceStatus::NonCompliant },
{
    if measured_seconds <= target_seconds { ComplianceStatus::Compliant } else { ComplianceStatus::NonCompliant }
}

/// The recovery point implied by a sync lag, at five seconds per ledger,
/// truncated to 32 bits as the policy status stores it.
pub fn rpo_seconds_for_lag(sync_lag: Option<u64>) -> (r: u32)
    requires
        sync_lag matches Some(l) ==> l <= u64::MAX / 5,
    ensures
        r == (match sync_lag { Some(l) => l as int * 5, None => 0 }) % 0x1_0000_0000,
{
    let lag = match sync_lag { Some(l) => l, None => 0 };
    let rpo: u64 = lag * 5;
    (rpo % 0x1_0000_0000) as u32
}

/// A primary never fails over: its evaluation is always `Steady`.
pub proof fn law_primary_never_fails_over(
    primary_healthy: bool,
    auto_failover: bool,
    health_score: u32,
    min_health_score: u32,
    failover_active: bool,
)
    ensures
        failover_action(DRRole::Primary, primary_healthy, auto_failover, health_score, min_health_score, failover_active)
            == FailoverAction::Steady,
{
}

/// Failover is idempotent: once a failover is active, no evaluation starts
/// another one.
pub proof fn law_failover_not_retriggered(
    role: DRRole,
    primary_healthy: bool,
    auto_failover: bool,
    health_score: u32,
    min_health_score: u32,
)
    ensures
        failover_action(role, primary_healthy, auto_failover, health_score, min_health_score, true)
            != FailoverAction::Initiated,
{
}

/// A standby whose primary is unreachable, with automated failover allowed
/// and a sufficient health score, starts a failover unless one is active.
pub proof fn law_standby_fails_over_when_primary_lost(
    auto_failover: bool,
    health_score: u32,
    min_health_score: u32,
    failover_active: bool,
)
    requires
        auto_failover,
        health_score >= min_health_score,
    ensures
        failover_action(DRRole::Standby, false, auto_failover, health_score, min_health_score, failover_active)
            == if failover_active { FailoverAction::AlreadyActive } else { FailoverAction::Initiated },
{
}

/// A node's health score starts at 100 and loses 50 when the node is not
/// ready, 20 when it lags more than 100 ledgers and 30 more when it lags more
/// than 1000; a node whose health is unknown scores 0. So a node that is not
/// ready scores at most 50, and a ready node without lag scores 100.
pub proof fn law_health_score_deductions(ready: bool, sync_lag: Option<u64>)
    ensures
        health_score_spec(None) == 0,
        health_score_spec(Some(NodeHealthInput { ready, sync_lag })) as int == 100
            - (if ready { 0int } else { 50int })
            - (if sync_lag matches Some(l) && l > 100 { 20int } else { 0int })
            - (if sync_lag matches Some(l) && l > 1000 { 30int } else { 0int }),
        !ready ==> health_score_spec(Some(NodeHealthInput { ready, sync_lag })) <= 50,
        ready && (sync_lag is None || sync_lag == Some(0u64))
            ==> health_score_spec(Some(NodeHealthInput { ready, sync_lag })) == 100,
{
}

} // verus!
