//! Health checks of a Stellar node sidecar: sync status from the node's API
//! and the liveness and readiness answers derived from it.
//!
//! Serving HTTP and querying the node are the caller's I/O.

use vstd::prelude::*;
use crate::text::{owned, concat2, str_eq};

verus! {

/// The last known sync state of the node.
#[derive(Clone, Debug)]
pub struct SyncStatus {
    pub is_synced: bool,
    pub ledger_num: u64,
    pub network_ledger: u64,
    /// When it was checked, in seconds since the Unix epoch.
    pub last_check: i64,
}

impl Default for SyncStatus {
    /// Not synced, nothing known.
    fn default() -> (r: Self)
        ensures
            !r.is_synced,
            r.ledger_num == 0,
            r.network_ledger == 0,
            r.last_check == 0,
    {
        SyncStatus { is_synced: false, ledger_num: 0, network_ledger: 0, last_check: 0 }
    }
}

/// The body of a health answer.
#[derive(Clone, Debug)]
pub struct HealthResponse {
    pub status: String,
    pub synced: bool,
    pub ledger_num: u64,
    pub network_ledger: u64,
}

/// HTTP 200.
pub const STATUS_OK: u16 = 200;

/// HTTP 503.
pub const STATUS_SERVICE_UNAVAILABLE: u16 = 503;

/// The liveness answer: "alive" (200) when the node's API answered, else
/// "dead" (503).
pub fn liveness_response(core_alive: bool) -> (r: (u16, HealthResponse))
    ensures
        r.0 == (if core_alive { STATUS_OK } else { STATUS_SERVICE_UNAVAILABLE }),
        r.1.status@ == (if core_alive { "alive"@ } else { "dead"@ }),
        !r.1.synced,
        r.1.ledger_num == 0,
        r.1.network_ledger == 0,
{
    let status = if core_alive { owned("alive") } else { owned("dead") };
    let code = if core_alive { STATUS_OK } else { STATUS_SERVICE_UNAVAILABLE };
    (code, HealthResponse { status, synced: false, ledger_num: 0, network_ledger: 0 })
}

/// The readiness answer: "ready" (200) once synced, else "syncing" (503),
/// with the known ledgers.
pub fn readiness_response(s: &SyncStatus) -> (r: (u16, HealthResponse))
    ensures
        r.0 == (if s.is_synced { STATUS_OK } else { STATUS_SERVICE_UNAVAILABLE }),
        r.1.status@ == (if s.is_synced { "ready"@ } else { "syncing"@ }),
        r.1.synced == s.is_synced,
        r.1.ledger_num == s.ledger_num,
        r.1.network_ledger == s.network_ledger,
{
    if s.is_synced {
        (STATUS_OK, HealthResponse { status: owned("ready"), synced: true, ledger_num: s.ledger_num, network_ledger: s.network_ledger })
    } else {
        (STATUS_SERVICE_UNAVAILABLE, HealthResponse {
            status: owned("syncing"),
            synced: false,
            ledger_num: s.ledger_num,
            network_ledger: s.network_ledger,
        })
    }
}

/// The URLs probed for liveness, in order: Stellar Core's `/info`,
/// Horizon's root and Soroban RPC's `/health`.
pub fn liveness_endpoints(core_url: &str) -> (r: Vec<String>)
    ensures
        r@.map_values(|s: String| s@) == seq![core_url@ + "/info"@, core_url@ + "/"@, core_url@ + "/health"@],
{
    let mut v: Vec<String> = Vec::new();
    v.push(concat2(core_url, "/info"));
    v.push(concat2(core_url, "/"));
    v.push(concat2(core_url, "/health"));
    assert(v@.map_values(|s: String| s@) =~= seq![core_url@ + "/info"@, core_url@ + "/"@, core_url@ + "/health"@]);
    v
}

/// The API a sync status is read from.
#[derive(Clone, Copy, Debug, PartialEq, Eq, Structural)]
pub enum StatusSource {
    /// Stellar Core's `/info`: synced within 10 ledgers of the network.
    Core,
    /// Horizon's root: synced within 5 ledgers of Core.
    Horizon,
}

/// Whether a node at `ledger` is in sync with a network at `network`, with
/// the tolerance of the source.
pub open spec fn in_sync(source: StatusSource, ledger: u64, network: u64) -> bool {
    network > 0 && network - ledger <= (match source {
        StatusSource::Core => 10int,
        StatusSource::Horizon => 5int,
    })
}

/// The sync status read from Stellar Core or Horizon at time `now_secs`.
/// The node is never ahead of the network it reports (`ledger <= network`
/// whenever the network ledger is known).
pub fn ledger_sync_status(source: StatusSource, ledger_num: u64, network_ledger: u64, now_secs: i64) -> (r: SyncStatus)
    requires
        network_ledger > 0 ==> ledger_num <= network_ledger,
    ensures
        r.is_synced == in_sync(source, ledger_num, network_ledger),
        r.ledger_num == ledger_num,
        r.network_ledger == network_ledger,
        r.last_check == now_secs,
{
    let tolerance: u64 = match source {
        StatusSource::Core => 10,
        StatusSource::Horizon => 5,
    };
    let is_synced = network_ledger > 0 && network_ledger - ledger_num <= tolerance;
    SyncStatus { is_synced, ledger_num, network_ledger, last_check: now_secs }
}

/// The sync status read from Soroban RPC's `/health`: synced when it reports
/// "healthy" and knows the network's latest ledger.
pub fn soroban_sync_status(status: Option<&str>, oldest_ledger: u64, latest_ledger: u64, now_secs: i64) -> (r: SyncStatus)
    ensures
        r.is_synced == (match status {
            Some(s) => s@ == "healthy"@,
            None => false,
        } && latest_ledger > 0),
        r.ledger_num == oldest_ledger,
        r.network_ledger == latest_ledger,
        r.last_check == now_secs,
{
    let healthy = match status {
        Some(s) => str_eq(s, "healthy"),
        None => false,
    };
    SyncStatus { is_synced: healthy && latest_ledger > 0, ledger_num: oldest_ledger, network_ledger: latest_ledger, last_check: now_secs }
}

} // verus!
