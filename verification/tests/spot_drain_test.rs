use stellar_k8s::spot_drain::{
    aws_terminating, azure_preempted, eviction_note, gcp_preempted, instance_selector, node_field_selector, runs_on,
};

fn event_types(json: &str) -> Vec<String> {
    let v: serde_json::Value = serde_json::from_str(json).unwrap();
    v["Events"]
        .as_array()
        .unwrap()
        .iter()
        .map(|e| e["EventType"].as_str().unwrap().to_string())
        .collect()
}

#[test]
fn test_azure_preempt_event_detected() {
    let json = r#"{"Events":[{"EventType":"Preempt","EventId":"abc","ResourceType":"VirtualMachine","Resources":["vm1"],"EventStatus":"Scheduled","NotBefore":""}]}"#;
    assert!(azure_preempted(&event_types(json)));
}

#[test]
fn test_azure_no_preempt_event() {
    let json = r#"{"Events":[{"EventType":"Reboot","EventId":"xyz","ResourceType":"VirtualMachine","Resources":["vm1"],"EventStatus":"Scheduled","NotBefore":""}]}"#;
    assert!(!azure_preempted(&event_types(json)));
}

#[test]
fn test_azure_empty_events() {
    let json = r#"{"Events":[]}"#;
    assert!(!azure_preempted(&event_types(json)));
}

#[test]
fn azure_event_type_ignores_ascii_case() {
    assert!(azure_preempted(&["Freeze".to_string(), "pREEMPT".to_string()]));
    assert!(!azure_preempted(&["Preempted".to_string()]));
}

#[test]
fn gcp_body_is_trimmed_and_case_insensitive() {
    assert!(gcp_preempted("TRUE"));
    assert!(gcp_preempted("  true\n"));
    assert!(!gcp_preempted("FALSE"));
    assert!(!gcp_preempted("truer"));
    assert!(!gcp_preempted(""));
}

#[test]
fn aws_success_status_means_termination() {
    assert!(aws_terminating(200));
    assert!(aws_terminating(204));
    assert!(!aws_terminating(404));
    assert!(!aws_terminating(500));
    assert!(!aws_terminating(199));
}

#[test]
fn drain_selectors_and_notes() {
    assert_eq!(
        instance_selector("validator-1"),
        "app.kubernetes.io/instance=validator-1,app.kubernetes.io/managed-by=stellar-operator"
    );
    assert_eq!(node_field_selector("ip-10-0-0-1"), "spec.nodeName=ip-10-0-0-1");
    assert_eq!(
        eviction_note("n1"),
        "Pod evicted: spot/preemptible termination notice received on node n1"
    );
    assert!(runs_on(&Some("n1".to_string()), "n1"));
    assert!(!runs_on(&Some("n2".to_string()), "n1"));
    assert!(!runs_on(&None, "n1"));
}
