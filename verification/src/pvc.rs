//! The PVC autoscaler's loop decisions: how often it runs, and which
//! Kubernetes event each expansion outcome is reported with.
//!
//! Inspecting and resizing volumes, and posting events, are the caller's I/O.

use vstd::prelude::*;
use crate::text::{owned, append, u64_to_string, i64_to_string, decimal, signed_decimal};

verus! {

/// Seconds between two passes of the autoscaler.
pub const DEFAULT_POLL_INTERVAL_SECS: u64 = 300;

/// What checking one node's volume led to.
#[derive(Debug, Clone, Copy, PartialEq, Eq, Structural)]
pub enum ExpansionOutcome {
    /// The volume was expanded to this many GiB.
    Expanded { new_size_gi: u64 },
    BelowThreshold,
    InFlight,
    StorageClassUnsupported,
    MaxExpansionsReached,
    TooSoon,
    QuotaExceeded,
}

/// The event an outcome is reported with.
#[derive(Debug, Clone, Copy, PartialEq, Eq, Structural)]
pub enum OutcomeEvent {
    /// A `PvcAutoExpanded` event with the new size.
    Expanded { new_size_gi: u64 },
    /// A warning that expansion is blocked, for the given reason.
    Blocked(BlockReason),
    /// Nothing is reported.
    Silent,
}

/// Why expansion is blocked.
#[derive(Debug, Clone, Copy, PartialEq, Eq, Structural)]
pub enum BlockReason {
    MaxExpansionsReached,
    StorageQuotaExceeded,
}

/// The reason text of a blocked expansion.
pub open spec fn block_reason_text(r: BlockReason) -> Seq<char> {
    match r {
        BlockReason::MaxExpansionsReached => "MaxExpansionsReached"@,
        BlockReason::StorageQuotaExceeded => "StorageQuotaExceeded"@,
    }
}

impl BlockReason {
    /// The reason text of the event.
    pub fn text(&self) -> (r: &'static str)
        ensures
            r@ == block_reason_text(*self),
    {
        match self {
            BlockReason::MaxExpansionsReached => "MaxExpansionsReached",
            BlockReason::StorageQuotaExceeded => "StorageQuotaExceeded",
        }
    }
}

/// The event an expansion outcome is reported with: an expansion, or a
/// warning when the maximum number of expansions is reached or the storage
/// quota would be exceeded; nothing otherwise.
pub fn outcome_event(outcome: ExpansionOutcome) -> (r: OutcomeEvent)
    ensures
        r == match outcome {
            ExpansionOutcome::Expanded { new_size_gi } => OutcomeEvent::Expanded { new_size_gi },
            ExpansionOutcome::MaxExpansionsReached => OutcomeEvent::Blocked(BlockReason::MaxExpansionsReached),
            ExpansionOutcome::QuotaExceeded => OutcomeEvent::Blocked(BlockReason::StorageQuotaExceeded),
            _ => OutcomeEvent::Silent,
        },
{
    match outcome {
        ExpansionOutcome::Expanded { new_size_gi } => OutcomeEvent::Expanded { new_size_gi },
        ExpansionOutcome::MaxExpansionsReached => OutcomeEvent::Blocked(BlockReason::MaxExpansionsReached),
        ExpansionOutcome::QuotaExceeded => OutcomeEvent::Blocked(BlockReason::StorageQuotaExceeded),
        _ => OutcomeEvent::Silent,
    }
}

/// Name and message of a Kubernetes event about a node.
#[derive(Debug, Clone)]
pub struct EventText {
    pub name: String,
    pub reason: String,
    pub message: String,
}

/// The event reporting that a node's volume grew to `new_size_gi` GiB, at
/// `now_secs` (seconds since the Unix epoch).
pub fn expansion_event(node: &str, new_size_gi: u64, now_secs: i64) -> (r: EventText)
    ensures
        r.name@ == "pvc-expanded-"@ + node@ + "-"@ + signed_decimal(now_secs as int),
        r.reason@ == "PvcAutoExpanded"@,
        r.message@ == "PVC for "@ + node@ + " automatically expanded to "@ + decimal(new_size_gi as nat)
            + "Gi by the disk autoscaler."@,
{
    let mut name = owned("pvc-expanded-");
    append(&mut name, node);
    append(&mut name, "-");
    append(&mut name, i64_to_string(now_secs).as_str());
    let mut message = owned("PVC for ");
    append(&mut message, node);
    append(&mut message, " automatically expanded to ");
    append(&mut message, u64_to_string(new_size_gi).as_str());
    append(&mut message, "Gi by the disk autoscaler.");
    EventText { name, reason: owned("PvcAutoExpanded"), message }
}

/// The warning that expansion of a node's volume is blocked, at `now_secs`.
pub fn blocked_event(node: &str, reason: BlockReason, now_secs: i64) -> (r: EventText)
    ensures
        r.name@ == "pvc-autoscaler-"@ + node@ + "-"@ + signed_decimal(now_secs as int),
        r.reason@ == block_reason_text(reason),
        r.message@ == "PVC auto-expansion blocked for "@ + node@ + ": "@ + block_reason_text(reason)
            + ". Manual intervention may be required."@,
{
    let mut name = owned("pvc-autoscaler-");
    append(&mut name, node);
    append(&mut name, "-");
    append(&mut name, i64_to_string(now_secs).as_str());
    let mut message = owned("PVC auto-expansion blocked for ");
    append(&mut message, node);
    append(&mut message, ": ");
    append(&mut message, reason.text());
    append(&mut message, ". Manual intervention may be required.");
    EventText { name, reason: owned(reason.text()), message }
}

} // verus!
