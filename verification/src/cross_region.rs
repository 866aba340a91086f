//! Cross-region state synchronisation: configuration, the objects the
//! operator writes to replicate ledger state between regions, and the
//! decisions of two-phase commit, lag tracking and automated failover.
//!
//! Reading and writing cluster objects is the caller's I/O.

use vstd::prelude::*;
use crate::text::{owned, concat2, append, u64_to_string, i64_to_string, decimal, signed_decimal,
    parse_u64, parse_u64_spec, chars_of, string_from_chars, str_eq, str_starts_with, starts_with_seq,
    utf8_of, utf8_bytes};
use crate::audit::{base64_standard, base64_of};

verus! {

/// Pod annotation enabling the state-sync sidecar.
pub const SYNC_SIDECAR_ANNOTATION: &'static str = "stellar.org/state-sync-enabled";

/// Annotation recording the last ledger synced to a region.
pub const LAST_SYNCED_LEDGER_ANNOTATION: &'static str = "stellar.org/last-synced-ledger";

/// Pod annotation naming the region a sidecar replicates to.
pub const SYNC_TARGET_REGION_ANNOTATION: &'static str = "stellar.org/sync-target-region";

/// ConfigMap holding the cross-region bridge settings.
pub const BRIDGE_CONFIG_MAP: &'static str = "stellar-cross-region-bridge";

/// Name prefix of staged (uncommitted) snapshot secrets.
pub const STAGING_SECRET_PREFIX: &'static str = "stellar-sync-staging-";

/// Name prefix of committed snapshot secrets.
pub const LIVE_SECRET_PREFIX: &'static str = "stellar-sync-live-";

/// A remote region that receives replicated state.
#[derive(Debug, Clone)]
pub struct RegionEndpoint {
    pub name: String,
    pub api_server: String,
    pub kubeconfig_secret: String,
    pub target_namespace: String,
}

/// Whether failover to a replica happens by itself or by an operator.
#[derive(Debug, Clone, Copy, PartialEq, Eq, Structural)]
pub enum FailoverPolicy {
    Automated,
    Manual,
}

/// The name of a failover policy, as its debug form prints it.
pub open spec fn policy_name(p: FailoverPolicy) -> Seq<char> {
    match p {
        FailoverPolicy::Automated => "Automated"@,
        FailoverPolicy::Manual => "Manual"@,
    }
}

impl FailoverPolicy {
    /// The policy's name, as its debug form prints it.
    pub fn name(&self) -> (r: &'static str)
        ensures
            r@ == policy_name(*self),
    {
        match self {
            FailoverPolicy::Automated => "Automated",
            FailoverPolicy::Manual => "Manual",
        }
    }
}

/// Configuration of cross-region synchronisation.
#[derive(Debug, Clone)]
pub struct CrossRegionSyncConfig {
    pub target_regions: Vec<RegionEndpoint>,
    pub sync_interval_secs: u64,
    pub failure_threshold: u32,
    pub failover_policy: FailoverPolicy,
    pub max_lag_ledgers: u64,
    pub two_phase_commit: bool,
}

impl Default for CrossRegionSyncConfig {
    /// No target region, a 30 s interval, 3 failures tolerated, manual
    /// failover, 100 ledgers of tolerated lag, two-phase commit.
    fn default() -> (r: Self)
        ensures
            r.target_regions@.len() == 0,
            r.sync_interval_secs == 30,
            r.failure_threshold == 3,
            r.failover_policy == FailoverPolicy::Manual,
            r.max_lag_ledgers == 100,
            r.two_phase_commit,
    {
        CrossRegionSyncConfig {
            target_regions: Vec::new(),
            sync_interval_secs: 30,
            failure_threshold: 3,
            failover_policy: FailoverPolicy::Manual,
            max_lag_ledgers: 100,
            two_phase_commit: true,
        }
    }
}

/// A snapshot of ledger state captured in one region.
#[derive(Debug, Clone)]
pub struct LedgerStateSnapshot {
    pub ledger_sequence: u64,
    pub checksum: String,
    pub captured_at: i64,
    pub source_region: String,
    pub state_payload: Vec<u8>,
}

/// Replication status of one target region.
#[derive(Debug, Clone)]
pub struct RegionSyncStatus {
    pub region: String,
    pub last_synced_ledger: u64,
    pub replication_lag_ledgers: i64,
    pub last_sync_time: i64,
    pub healthy: bool,
    pub error_message: Option<String>,
}

/// String pairs as character sequences.
pub open spec fn pair_views(v: Seq<(String, String)>) -> Seq<(Seq<char>, Seq<char>)> {
    v.map_values(|p: (String, String)| (p.0@, p.1@))
}

/// The bridge ConfigMap's data, in key order, for a configuration whose
/// target regions serialise to `regions_json`.
pub open spec fn bridge_data_spec(c: CrossRegionSyncConfig, regions_json: Seq<char>) -> Seq<(Seq<char>, Seq<char>)> {
    seq![
        ("failover_policy"@, policy_name(c.failover_policy)),
        ("failure_threshold"@, decimal(c.failure_threshold as nat)),
        ("max_lag_ledgers"@, decimal(c.max_lag_ledgers as nat)),
        ("sync_interval_secs"@, decimal(c.sync_interval_secs as nat)),
        ("target_regions"@, regions_json),
    ]
}

/// The data of the bridge ConfigMap, in key order; `regions_json` is the
/// JSON of the target regions.
pub fn bridge_config_data(config: &CrossRegionSyncConfig, regions_json: &str) -> (r: Vec<(String, String)>)
    ensures
        pair_views(r@) == bridge_data_spec(*config, regions_json@),
{
    let mut v: Vec<(String, String)> = Vec::new();
    v.push((owned("failover_policy"), owned(config.failover_policy.name())));
    v.push((owned("failure_threshold"), u64_to_string(config.failure_threshold as u64)));
    v.push((owned("max_lag_ledgers"), u64_to_string(config.max_lag_ledgers)));
    v.push((owned("sync_interval_secs"), u64_to_string(config.sync_interval_secs)));
    v.push((owned("target_regions"), owned(regions_json)));
    assert(pair_views(v@) =~= bridge_data_spec(*config, regions_json@));
    v
}

/// Whether a pod's sidecar must be (re)activated for `target_region`: unless
/// its target-region annotation already names that region.
pub fn needs_sidecar_activation(current_target: Option<&str>, target_region: &str) -> (r: bool)
    ensures
        r == match current_target {
            Some(t) => t@ != target_region@,
            None => true,
        },
{
    match current_target {
        Some(t) => !str_eq(t, target_region),
        None => true,
    }
}

/// The annotations added to a pod whose sidecar is activated.
pub fn sidecar_annotations(target_region: &str) -> (r: Vec<(String, String)>)
    ensures
        pair_views(r@) == seq![
            (SYNC_SIDECAR_ANNOTATION@, "true"@),
            (SYNC_TARGET_REGION_ANNOTATION@, target_region@),
        ],
{
    let mut v: Vec<(String, String)> = Vec::new();
    v.push((owned(SYNC_SIDECAR_ANNOTATION), owned("true")));
    v.push((owned(SYNC_TARGET_REGION_ANNOTATION), owned(target_region)));
    assert(pair_views(v@) =~= seq![
        (SYNC_SIDECAR_ANNOTATION@, "true"@),
        (SYNC_TARGET_REGION_ANNOTATION@, target_region@),
    ]);
    v
}

/// The name of the staging secret of a snapshot.
pub open spec fn staging_name_spec(source_region: Seq<char>, ledger: u64) -> Seq<char> {
    STAGING_SECRET_PREFIX@ + source_region + "-"@ + decimal(ledger as nat)
}

/// The staging secret of a snapshot: its name and data (key, bytes) in key
/// order, the payload base64-encoded.
pub struct StagingSecret {
    pub name: String,
    pub data: Vec<(String, Vec<u8>)>,
}

/// The staging secret's data, in key order.
pub open spec fn staging_data_spec(s: LedgerStateSnapshot) -> Seq<(Seq<char>, Seq<char>)> {
    seq![
        ("captured_at"@, signed_decimal(s.captured_at as int)),
        ("checksum"@, s.checksum@),
        ("ledger_sequence"@, decimal(s.ledger_sequence as nat)),
        ("source_region"@, s.source_region@),
        ("state_payload"@, base64_of(s.state_payload@)),
    ]
}

/// The data entries as (key, text) pairs, before UTF-8 encoding.
pub open spec fn data_texts(v: Seq<(String, Vec<u8>)>, texts: Seq<(Seq<char>, Seq<char>)>) -> bool {
    &&& v.len() == texts.len()
    &&& forall|i: int| 0 <= i < v.len() ==> #[trigger] v[i].0@ == texts[i].0 && v[i].1@ == utf8_of(texts[i].1)
}

/// The staging secret of a snapshot, named
/// `stellar-sync-staging-{region}-{ledger}`.
pub fn staging_secret(snapshot: &LedgerStateSnapshot) -> (r: StagingSecret)
    ensures
        r.name@ == staging_name_spec(snapshot.source_region@, snapshot.ledger_sequence),
        data_texts(r.data@, staging_data_spec(*snapshot)),
{
    let mut name = owned(STAGING_SECRET_PREFIX);
    append(&mut name, snapshot.source_region.as_str());
    append(&mut name, "-");
    append(&mut name, u64_to_string(snapshot.ledger_sequence).as_str());
    let mut data: Vec<(String, Vec<u8>)> = Vec::new();
    data.push((owned("captured_at"), utf8_bytes(i64_to_string(snapshot.captured_at).as_str())));
    data.push((owned("checksum"), utf8_bytes(snapshot.checksum.as_str())));
    data.push((owned("ledger_sequence"), utf8_bytes(u64_to_string(snapshot.ledger_sequence).as_str())));
    data.push((owned("source_region"), utf8_bytes(snapshot.source_region.as_str())));
    data.push((owned("state_payload"), utf8_bytes(base64_standard(snapshot.state_payload.as_slice()).as_str())));
    StagingSecret { name, data }
}

/// `s` with every non-overlapping occurrence of `from`, scanning left to
/// right, replaced by `to` (as `str::replace` does; `from` non-empty).
pub open spec fn replace_all(s: Seq<char>, from: Seq<char>, to: Seq<char>) -> Seq<char>
    decreases s.len(),
{
    if from.len() == 0 || s.len() == 0 {
        s
    } else if starts_with_seq(s, from) {
        to + replace_all(s.skip(from.len() as int), from, to)
    } else {
        seq![s[0]] + replace_all(s.drop_first(), from, to)
    }
}

/// The committed name of a staging secret: every staging prefix in it
/// turned into the live prefix.
pub open spec fn live_name_spec(staging: Seq<char>) -> Seq<char> {
    replace_all(staging, STAGING_SECRET_PREFIX@, LIVE_SECRET_PREFIX@)
}

proof fn lemma_replace_all_step(s: Seq<char>, from: Seq<char>, to: Seq<char>, i: int)
    requires
        from.len() > 0,
        0 <= i < s.len(),
    ensures
        starts_with_seq(s.skip(i), from) ==> replace_all(s.skip(i), from, to) == to + replace_all(s.skip(i + from.len()), from, to),
        !starts_with_seq(s.skip(i), from) ==> replace_all(s.skip(i), from, to) == seq![s[i]] + replace_all(s.skip(i + 1), from, to),
{
    if starts_with_seq(s.skip(i), from) {
        assert(s.skip(i).skip(from.len() as int) =~= s.skip(i + from.len()));
    } else {
        assert(s.skip(i).drop_first() =~= s.skip(i + 1));
    }
}

/// Replaces every occurrence of the staging prefix in `name` by the live prefix.
fn live_name(name: &str) -> (r: String)
    ensures
        r@ == live_name_spec(name@),
{
    let s = chars_of(name);
    let from = chars_of(STAGING_SECRET_PREFIX);
    let to = chars_of(LIVE_SECRET_PREFIX);
    proof {
        reveal_strlit("stellar-sync-staging-");
    }
    let mut out: Vec<char> = Vec::new();
    let mut i: usize = 0;
    assert(s@.skip(0) =~= s@);
    assert(out@ + s@ =~= s@);
    while i < s.len()
        invariant
            i <= s.len(),
            s@ == name@,
            from@ == STAGING_SECRET_PREFIX@,
            to@ == LIVE_SECRET_PREFIX@,
            from@.len() == 21,
            out@ + replace_all(s@.skip(i as int), from@, to@) == live_name_spec(name@),
        decreases s.len() - i,
    {
        proof {
            lemma_replace_all_step(s@, from@, to@, i as int);
        }
        if from.len() <= s.len() - i && crate::text::matches_at(&s, &from, i) {
            assert(starts_with_seq(s@.skip(i as int), from@)) by {
                assert(s@.skip(i as int).subrange(0, from@.len() as int) =~= s@.subrange(i as int, i + from@.len()));
            }
            let mut j: usize = 0;
            let ghost out0 = out@;
            while j < to.len()
                invariant
                    j <= to.len(),
                    out@ == out0 + to@.take(j as int),
                decreases to.len() - j,
            {
                out.push(to[j]);
                j += 1;
                assert(out@ =~= out0 + to@.take(j as int));
            }
            assert(to@.take(to.len() as int) =~= to@);
            assert(out0 + (to@ + replace_all(s@.skip(i + from@.len()), from@, to@))
                =~= out@ + replace_all(s@.skip(i + from@.len()), from@, to@));
            i = i + from.len();
        } else {
            assert(!starts_with_seq(s@.skip(i as int), from@)) by {
                if starts_with_seq(s@.skip(i as int), from@) {
                    assert(s@.skip(i as int).subrange(0, from@.len() as int) =~= s@.subrange(i as int, i + from@.len()));
                }
            }
            let ghost out0 = out@;
            out.push(s[i]);
            assert(out0 + (seq![s@[i as int]] + replace_all(s@.skip(i + 1), from@, to@))
                =~= out@ + replace_all(s@.skip(i + 1), from@, to@));
            i += 1;
        }
    }
    assert(s@.skip(i as int).len() == 0);
    assert(out@ + replace_all(s@.skip(i as int), from@, to@) =~= out@);
    string_from_chars(out.as_slice())
}

/// Why a commit of a staged snapshot is refused.
#[derive(Debug, Clone)]
pub enum CommitError {
    /// The staging secret holds no data.
    NoData,
    /// The staged checksum is not the expected one.
    ChecksumMismatch { expected: String, actual: String },
}

/// The second phase of a two-phase commit: the staged snapshot, whose data
/// is `staged_data` and whose checksum entry reads `actual_checksum` (empty
/// when absent), is committed under its live name when the checksum is the
/// expected one.
pub fn commit_decision(staging_name: &str, has_data: bool, actual_checksum: &str, expected_checksum: &str)
    -> (r: Result<String, CommitError>)
    ensures
        !has_data ==> r is Err && r->Err_0 is NoData,
        has_data && actual_checksum@ != expected_checksum@ ==> (match r {
            Err(CommitError::ChecksumMismatch { expected, actual }) => expected@ == expected_checksum@ && actual@ == actual_checksum@,
            _ => false,
        }),
        has_data && actual_checksum@ == expected_checksum@ ==> (match r {
            Ok(live) => live@ == live_name_spec(staging_name@),
            Err(_) => false,
        }),
{
    if !has_data {
        return Err(CommitError::NoData);
    }
    if !str_eq(actual_checksum, expected_checksum) {
        return Err(CommitError::ChecksumMismatch { expected: owned(expected_checksum), actual: owned(actual_checksum) });
    }
    Ok(live_name(staging_name))
}

/// Whether all bytes are ASCII.
pub open spec fn all_ascii(b: Seq<u8>) -> bool {
    forall|i: int| 0 <= i < b.len() ==> b[i] < 128
}

/// The characters of ASCII bytes.
pub open spec fn ascii_chars(b: Seq<u8>) -> Seq<char> {
    b.map_values(|x: u8| x as char)
}

/// The ledger sequence a secret's `ledger_sequence` entry holds, read as
/// UTF-8 text and parsed as `u64` (text that is not valid UTF-8 or not a
/// number gives none).
pub open spec fn ledger_entry_value(b: Seq<u8>) -> Option<u64> {
    if all_ascii(b) { parse_u64_spec(ascii_chars(b)) } else { None }
}

/// Parses the bytes of a `ledger_sequence` entry.
pub fn parse_ledger_entry(b: &[u8]) -> (r: Option<u64>)
    ensures
        r == ledger_entry_value(b@),
{
    let mut chars: Vec<char> = Vec::new();
    let mut i: usize = 0;
    while i < b.len()
        invariant
            i <= b.len(),
            chars@ == ascii_chars(b@.take(i as int)),
            all_ascii(b@.take(i as int)),
        decreases b.len() - i,
    {
        if b[i] >= 128 {
            assert(!all_ascii(b@));
            return None;
        }
        chars.push(b[i] as char);
        i += 1;
        assert(chars@ =~= ascii_chars(b@.take(i as int)));
    }
    assert(b@.take(b.len() as int) =~= b@);
    let s = string_from_chars(chars.as_slice());
    parse_u64(s.as_str())
}

/// A replicated secret seen in a region: its name, and the bytes of its
/// `ledger_sequence` entry when it has one.
pub struct ReplicaSecret {
    pub name: String,
    pub ledger_entry: Option<Vec<u8>>,
}

/// The ledger a secret contributes: committed (live) secrets with a
/// readable ledger entry.
pub open spec fn contributed(s: ReplicaSecret) -> Option<u64> {
    if starts_with_seq(s.name@, LIVE_SECRET_PREFIX@) {
        match s.ledger_entry {
            Some(b) => ledger_entry_value(b@),
            None => None,
        }
    } else {
        None
    }
}

/// The highest ledger among the contributions, 0 when none.
pub open spec fn latest_ledger(s: Seq<ReplicaSecret>) -> u64
    decreases s.len(),
{
    if s.len() == 0 {
        0
    } else {
        let rest = latest_ledger(s.drop_last());
        match contributed(s.last()) {
            Some(v) => if v > rest { v } else { rest },
            None => rest,
        }
    }
}

/// The last ledger replicated to a region: the highest ledger among its
/// committed snapshots, 0 when it has none.
pub fn latest_live_ledger(secrets: &[ReplicaSecret]) -> (r: u64)
    ensures
        r == latest_ledger(secrets@),
        forall|i: int| 0 <= i < secrets.len() && #[trigger] contributed(secrets@[i]) is Some
            ==> contributed(secrets@[i])->0 <= r,
        r == 0 || exists|i: int| 0 <= i < secrets.len() && #[trigger] contributed(secrets@[i]) == Some(r),
{
    let mut best: u64 = 0;
    let mut i: usize = 0;
    while i < secrets.len()
        invariant
            i <= secrets.len(),
            best == latest_ledger(secrets@.take(i as int)),
        decreases secrets.len() - i,
    {
        assert(secrets@.take(i as int) =~= secrets@.take(i + 1).drop_last());
        let s = &secrets[i];
        if str_starts_with(s.name.as_str(), LIVE_SECRET_PREFIX) {
            match &s.ledger_entry {
                Some(b) => {
                    match parse_ledger_entry(b.as_slice()) {
                        Some(v) => {
                            if v > best {
                                best = v;
                            }
                        },
                        None => {},
                    }
                },
                None => {},
            }
        }
        i += 1;
    }
    assert(secrets@.take(secrets.len() as int) =~= secrets@);
    proof { law_latest_ledger_is_highest(secrets@); }
    best
}

/// The lag of a replica behind the primary, in ledgers, as `i64`.
pub open spec fn lag_spec(primary: u64, last: u64) -> int {
    (primary as i64) as int - (last as i64) as int
}

/// The status of a region whose committed ledger is `last_ledger` (when its
/// secrets could be listed) or whose listing failed with `error`.
pub fn region_status(region: &str, listing: Result<u64, String>, primary_ledger: u64, now_secs: i64) -> (r: RegionSyncStatus)
    requires
        i64::MIN <= lag_spec(primary_ledger, match listing { Ok(l) => l, Err(_) => 0 }) <= i64::MAX,
    ensures
        r.region@ == region@,
        r.last_sync_time == now_secs,
        match listing {
            Ok(l) => r.last_synced_ledger == l && r.healthy && r.error_message.is_none(),
            Err(e) => r.last_synced_ledger == 0 && !r.healthy && r.error_message == Some(e),
        },
        r.replication_lag_ledgers == lag_spec(primary_ledger, r.last_synced_ledger),
{
    let (last, healthy, err) = match listing {
        Ok(l) => (l, true, None),
        Err(e) => (0u64, false, Some(e)),
    };
    let lag = (primary_ledger as i64) - (last as i64);
    RegionSyncStatus {
        region: owned(region),
        last_synced_ledger: last,
        replication_lag_ledgers: lag,
        last_sync_time: now_secs,
        healthy,
        error_message: err,
    }
}

/// Whether every region is within the recovery point objective: its lag is
/// at most `rpo_seconds / 5` ledgers (a ledger closes about every 5 s).
pub open spec fn rpo_compliant_spec(lags: Seq<i64>, rpo_seconds: u32) -> bool {
    forall|i: int| 0 <= i < lags.len() ==> #[trigger] lags[i] <= rpo_seconds / 5
}

/// Whether every region's replication lag is within the RPO target.
pub fn rpo_compliant(statuses: &[RegionSyncStatus], rpo_seconds: u32) -> (r: bool)
    ensures
        r == rpo_compliant_spec(statuses@.map_values(|s: RegionSyncStatus| s.replication_lag_ledgers), rpo_seconds),
{
    let ghost lags = statuses@.map_values(|s: RegionSyncStatus| s.replication_lag_ledgers);
    let target: i64 = (rpo_seconds / 5) as i64;
    let mut i: usize = 0;
    while i < statuses.len()
        invariant
            i <= statuses.len(),
            lags == statuses@.map_values(|s: RegionSyncStatus| s.replication_lag_ledgers),
            target == rpo_seconds / 5,
            forall|j: int| 0 <= j < i ==> #[trigger] lags[j] <= target,
        decreases statuses.len() - i,
    {
        if statuses[i].replication_lag_ledgers > target {
            assert(lags[i as int] > target);
            return false;
        }
        i += 1;
    }
    true
}

/// Why automated failover did not pick a region.
#[derive(Debug, Clone, Copy, PartialEq, Eq, Structural)]
pub enum FailoverRefusal {
    /// The failover policy is manual.
    Disabled,
    /// No region is healthy.
    NoHealthyReplica,
}

/// Whether `i` is the region automated failover promotes: a healthy one with
/// the highest last synced ledger, the last such one in order.
pub open spec fn is_failover_choice(s: Seq<RegionSyncStatus>, i: int) -> bool {
    &&& 0 <= i < s.len()
    &&& s[i].healthy
    &&& forall|j: int| 0 <= j < s.len() && #[trigger] s[j].healthy ==> s[j].last_synced_ledger <= s[i].last_synced_ledger
    &&& forall|j: int| i < j < s.len() && #[trigger] s[j].healthy ==> s[j].last_synced_ledger < s[i].last_synced_ledger
}

/// Picks the region automated failover promotes: refused under a manual
/// policy or when no region is healthy; otherwise the index of the healthy
/// region with the highest last synced ledger (the last one on a tie).
pub fn choose_failover_region(policy: FailoverPolicy, statuses: &[RegionSyncStatus]) -> (r: Result<usize, FailoverRefusal>)
    ensures
        policy != FailoverPolicy::Automated ==> r == Err::<usize, FailoverRefusal>(FailoverRefusal::Disabled),
        policy == FailoverPolicy::Automated ==> match r {
            Ok(i) => is_failover_choice(statuses@, i as int),
            Err(e) => e == FailoverRefusal::NoHealthyReplica
                && forall|j: int| 0 <= j < statuses@.len() ==> !(#[trigger] statuses@[j]).healthy,
        },
{
    if policy != FailoverPolicy::Automated {
        return Err(FailoverRefusal::Disabled);
    }
    let mut best: Option<usize> = None;
    let mut i: usize = 0;
    while i < statuses.len()
        invariant
            i <= statuses.len(),
            match best {
                Some(b) => b < i && statuses@[b as int].healthy
                    && (forall|j: int| 0 <= j < i && #[trigger] statuses@[j].healthy ==> statuses@[j].last_synced_ledger <= statuses@[b as int].last_synced_ledger)
                    && (forall|j: int| b < j < i && #[trigger] statuses@[j].healthy ==> statuses@[j].last_synced_ledger < statuses@[b as int].last_synced_ledger),
                None => forall|j: int| 0 <= j < i ==> !(#[trigger] statuses@[j]).healthy,
            },
        decreases statuses.len() - i,
    {
        if statuses[i].healthy {
            match best {
                Some(b) => {
                    if statuses[i].last_synced_ledger >= statuses[b].last_synced_ledger {
                        best = Some(i);
                    }
                },
                None => {
                    best = Some(i);
                },
            }
        }
        i += 1;
    }
    match best {
        Some(b) => Ok(b),
        None => Err(FailoverRefusal::NoHealthyReplica),
    }
}

/// The promoted region never trails any healthy replica.
pub proof fn law_failover_promotes_most_advanced(s: Seq<RegionSyncStatus>, i: int, j: int)
    requires
        is_failover_choice(s, i),
        0 <= j < s.len(),
        s[j].healthy,
    ensures
        s[j].last_synced_ledger <= s[i].last_synced_ledger,
{
}

/// Committing a staged snapshot names it with the live prefix in place of
/// the staging prefix.
pub proof fn law_commit_renames_staging(region: Seq<char>, ledger: u64)
    ensures
        live_name_spec(staging_name_spec(region, ledger)).take(LIVE_SECRET_PREFIX@.len() as int) == LIVE_SECRET_PREFIX@,
{
    reveal_strlit("stellar-sync-staging-");
    reveal_strlit("stellar-sync-live-");
    let s = staging_name_spec(region, ledger);
    assert(s.subrange(0, STAGING_SECRET_PREFIX@.len() as int) =~= STAGING_SECRET_PREFIX@);
    assert(starts_with_seq(s, STAGING_SECRET_PREFIX@));
    let rest = replace_all(s.skip(STAGING_SECRET_PREFIX@.len() as int), STAGING_SECRET_PREFIX@, LIVE_SECRET_PREFIX@);
    assert(live_name_spec(s) == LIVE_SECRET_PREFIX@ + rest);
    assert((LIVE_SECRET_PREFIX@ + rest).take(LIVE_SECRET_PREFIX@.len() as int) =~= LIVE_SECRET_PREFIX@);
}

/// The last ledger replicated to a region is the highest ledger its
/// committed snapshots contribute: no contribution exceeds it, and it is one
/// of them, or 0 when there is none.
pub proof fn law_latest_ledger_is_highest(s: Seq<ReplicaSecret>)
    ensures
        forall|i: int| 0 <= i < s.len() && #[trigger] contributed(s[i]) is Some
            ==> contributed(s[i])->0 <= latest_ledger(s),
        (latest_ledger(s) == 0 && forall|i: int| 0 <= i < s.len() ==> #[trigger] contributed(s[i]) is None)
            || exists|i: int| 0 <= i < s.len() && #[trigger] contributed(s[i]) == Some(latest_ledger(s)),
    decreases s.len(),
{
    if s.len() > 0 {
        let t = s.drop_last();
        law_latest_ledger_is_highest(t);
        assert forall|i: int| 0 <= i < s.len() && #[trigger] contributed(s[i]) is Some
            implies contributed(s[i])->0 <= latest_ledger(s) by {
            if i < t.len() {
                assert(s[i] == t[i]);
            }
        }
        if contributed(s.last()) == Some(latest_ledger(s)) {
            assert(contributed(s[s.len() - 1]) == Some(latest_ledger(s)));
        } else if exists|i: int| 0 <= i < t.len() && #[trigger] contributed(t[i]) == Some(latest_ledger(t)) {
            let i = choose|i: int| 0 <= i < t.len() && #[trigger] contributed(t[i]) == Some(latest_ledger(t));
            assert(s[i] == t[i]);
        } else {
            assert forall|i: int| 0 <= i < s.len() implies #[trigger] contributed(s[i]) is None by {
                if i < t.len() {
                    assert(s[i] == t[i]);
                } else {
                    assert(s[i] == s.last());
                }
            }
        }
    }
}

} // verus!
