//! Spot and preemptible instance termination: reading the cloud providers'
//! metadata answers, and the selectors and notes used while draining.
//!
//! The probes themselves (HTTP to the metadata endpoints) and the
//! Kubernetes calls that cordon, patch and evict are the caller's I/O.

use vstd::prelude::*;
use crate::text::{owned, append, trim, trimmed, eq_ignore_ascii_case, eq_ignore_ascii_case_spec};

verus! {

/// How often the metadata endpoints are polled, in seconds.
pub const POLL_INTERVAL_SECS: u64 = 5;

/// HTTP timeout of each metadata probe, in seconds.
pub const PROBE_TIMEOUT_SECS: u64 = 2;

/// AWS: the termination-time endpoint answering with a success status
/// (2xx) means the instance is scheduled for termination.
pub fn aws_terminating(status: u16) -> (r: bool)
    ensures
        r == (200 <= status && status <= 299),
{
    200 <= status && status <= 299
}

/// GCP: the preempted endpoint's body, trimmed, is `TRUE` in any case.
pub fn gcp_preempted(body: &str) -> (r: bool)
    ensures
        r == eq_ignore_ascii_case_spec(trimmed(body@), "true"@),
{
    eq_ignore_ascii_case(trim(body).as_str(), "true")
}

/// Azure: some scheduled event's type is `Preempt` in any case.
pub fn azure_preempted(event_types: &[String]) -> (r: bool)
    ensures
        r == exists|i: int| 0 <= i < event_types@.len() && eq_ignore_ascii_case_spec(#[trigger] event_types@[i]@, "Preempt"@),
{
    let mut i: usize = 0;
    while i < event_types.len()
        invariant
            i <= event_types@.len(),
            forall|k: int| 0 <= k < i ==> !eq_ignore_ascii_case_spec(#[trigger] event_types@[k]@, "Preempt"@),
        decreases event_types@.len() - i,
    {
        if eq_ignore_ascii_case(event_types[i].as_str(), "Preempt") {
            return true;
        }
        i += 1;
    }
    false
}

/// The label selector of the operator's pods of one StellarNode.
pub fn instance_selector(name: &str) -> (r: String)
    ensures
        r@ == "app.kubernetes.io/instance="@ + name@ + ",app.kubernetes.io/managed-by=stellar-operator"@,
{
    let mut r = owned("app.kubernetes.io/instance=");
    append(&mut r, name);
    append(&mut r, ",app.kubernetes.io/managed-by=stellar-operator");
    r
}

/// The field selector of the pods scheduled on a node.
pub fn node_field_selector(node_name: &str) -> (r: String)
    ensures
        r@ == "spec.nodeName="@ + node_name@,
{
    let mut r = owned("spec.nodeName=");
    append(&mut r, node_name);
    r
}

/// Whether a pod, scheduled on `pod_node` if anywhere, runs on `node_name`.
pub fn runs_on(pod_node: &Option<String>, node_name: &str) -> (r: bool)
    ensures
        r == (match pod_node { Some(n) => n@ == node_name@, None => false }),
{
    match pod_node {
        Some(n) => crate::text::str_eq(n.as_str(), node_name),
        None => false,
    }
}

/// The note of the event recorded for each evicted pod.
pub fn eviction_note(node_name: &str) -> (r: String)
    ensures
        r@ == "Pod evicted: spot/preemptible termination notice received on node "@ + node_name@,
{
    let mut r = owned("Pod evicted: spot/preemptible termination notice received on node ");
    append(&mut r, node_name);
    r
}

} // verus!
