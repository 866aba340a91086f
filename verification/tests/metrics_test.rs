use prometheus_client::encoding::text::encode;
use prometheus_client::registry::Registry;
use stellar_k8s::metrics::{
    inc_api_polls_avoided, inc_contract_invocation, inc_host_function_call, inc_observability_alert,
    inc_observability_alert_resolved, inc_observability_anomaly, inc_operator_reconcile_error,
    inc_reactive_status_update, inc_reconcile_error, inc_transaction_result, inc_uptime_seconds,
    init_operator_info, set_active_connections, set_contract_invocation_cpu, set_contract_invocation_memory,
    set_horizon_tps, set_ingestion_lag, set_ledger_sequence, set_node_sync_status, set_node_up,
    set_wasm_vm_memory, set_zk_archive_chain_gaps, set_zk_archive_signature_valid, ErrorLabels, NodeLabels,
    NodePhase, OperatorMetrics, SorobanLabels,
};

fn exposition(m: &OperatorMetrics) -> String {
    let mut registry = Registry::default();
    m.register(&mut registry);
    let mut out = String::new();
    encode(&mut out, &registry).unwrap();
    out
}

#[test]
fn test_set_ledger_sequence() {
    let mut m = OperatorMetrics::new();
    set_ledger_sequence(&mut m, "default", "test-node", "horizon", "testnet", "Intel Icelake", 12345);
    let text = exposition(&m);
    assert!(text.contains(
        "stellar_node_ledger_sequence{namespace=\"default\",name=\"test-node\",node_type=\"horizon\",network=\"testnet\",hardware_generation=\"Intel Icelake\"} 12345"
    ));
}

#[test]
fn test_set_ingestion_lag() {
    let mut m = OperatorMetrics::new();
    set_ingestion_lag(&mut m, "default", "test-node", "core", "testnet", "Intel Icelake", 5);
    assert!(exposition(&m).contains("stellar_node_ingestion_lag{namespace=\"default\",name=\"test-node\",node_type=\"core\",network=\"testnet\",hardware_generation=\"Intel Icelake\"} 5"));
}

#[test]
fn test_set_horizon_tps() {
    let mut m = OperatorMetrics::new();
    set_horizon_tps(&mut m, "default", "horizon-1", "horizon", "testnet", "Intel Icelake", 500);
    assert!(exposition(&m).contains("stellar_horizon_tps{namespace=\"default\",name=\"horizon-1\",node_type=\"horizon\",network=\"testnet\",hardware_generation=\"Intel Icelake\"} 500"));
}

#[test]
fn test_set_active_connections() {
    let mut m = OperatorMetrics::new();
    set_active_connections(&mut m, "default", "validator-1", "core", "testnet", "Intel Icelake", 25);
    assert!(exposition(&m).contains("stellar_node_active_connections{namespace=\"default\",name=\"validator-1\",node_type=\"core\",network=\"testnet\",hardware_generation=\"Intel Icelake\"} 25"));
}

#[test]
fn test_node_labels_creation() {
    let labels = NodeLabels {
        namespace: "stellar-system".to_string(),
        name: "horizon-prod".to_string(),
        node_type: "horizon".to_string(),
        network: "mainnet".to_string(),
        hardware_generation: "Intel Icelake".to_string(),
    };
    assert_eq!(labels.namespace, "stellar-system");
    assert_eq!(labels.name, "horizon-prod");
    assert_eq!(labels.node_type, "horizon");
    assert_eq!(labels.network, "mainnet");
    assert_eq!(labels.hardware_generation, "Intel Icelake");
    let pairs = labels.label_pairs();
    assert_eq!(pairs[0], ("namespace".to_string(), "stellar-system".to_string()));
    assert_eq!(pairs[4], ("hardware_generation".to_string(), "Intel Icelake".to_string()));
}

#[test]
fn test_registry_registration() {
    let m = OperatorMetrics::new();
    let text = exposition(&m);
    assert!(text.contains("# HELP stellar_operator_reconcile_errors_total Total number of operator reconcile errors."));
    assert!(text.contains("# TYPE stellar_operator_leader_status gauge"));
    assert!(text.contains("# HELP stellar_node_sync_status Current sync status of the Stellar node"));
}

#[test]
fn test_soroban_wasm_vm_memory() {
    let mut m = OperatorMetrics::new();
    set_wasm_vm_memory(&mut m, "default", "soroban-1", "testnet", "contract123", 1048576);
    assert!(exposition(&m).contains("soroban_rpc_wasm_vm_memory_bytes{namespace=\"default\",name=\"soroban-1\",network=\"testnet\",contract_id=\"contract123\"} 1048576"));
}

#[test]
fn test_soroban_contract_invocation_cpu() {
    let mut m = OperatorMetrics::new();
    set_contract_invocation_cpu(&mut m, "default", "soroban-1", "testnet", "contract123", 50000);
    assert!(exposition(&m).contains("soroban_rpc_contract_invocation_cpu_instructions{namespace=\"default\",name=\"soroban-1\",network=\"testnet\",contract_id=\"contract123\"} 50000"));
}

#[test]
fn test_soroban_contract_invocation_memory() {
    let mut m = OperatorMetrics::new();
    set_contract_invocation_memory(&mut m, "default", "soroban-1", "testnet", "contract123", 524288);
    assert!(exposition(&m).contains("soroban_rpc_contract_invocation_memory_bytes{namespace=\"default\",name=\"soroban-1\",network=\"testnet\",contract_id=\"contract123\"} 524288"));
}

#[test]
fn test_soroban_contract_invocation_counter() {
    let mut m = OperatorMetrics::new();
    inc_contract_invocation(&mut m, "default", "soroban-1", "testnet", "token");
    inc_contract_invocation(&mut m, "default", "soroban-1", "testnet", "defi");
    let text = exposition(&m);
    assert!(text.contains("contract_type=\"token\"} 1"));
    assert!(text.contains("contract_type=\"defi\"} 1"));
}

#[test]
fn test_soroban_transaction_result() {
    let mut m = OperatorMetrics::new();
    inc_transaction_result(&mut m, "default", "soroban-1", "testnet", true);
    inc_transaction_result(&mut m, "default", "soroban-1", "testnet", false);
    let text = exposition(&m);
    assert!(text.contains("result=\"success\"} 1"));
    assert!(text.contains("result=\"failed\"} 1"));
}

#[test]
fn test_soroban_host_function_calls() {
    let mut m = OperatorMetrics::new();
    inc_host_function_call(&mut m, "default", "soroban-1", "testnet", "contract123");
    assert!(exposition(&m).contains("contract_id=\"contract123\"} 1"));
}

#[test]
fn test_zk_metric_helpers() {
    let mut m = OperatorMetrics::new();
    set_zk_archive_signature_valid(&mut m, "stellar", "my-validator", "Validator", "Testnet", "", true);
    set_zk_archive_chain_gaps(&mut m, "stellar", "my-validator", "Validator", "Testnet", "", 0);
    set_zk_archive_chain_gaps(&mut m, "stellar", "my-validator", "Validator", "Testnet", "", 2);
    let text = exposition(&m);
    assert!(text.contains("stellar_zk_archive_signature_valid{namespace=\"stellar\",name=\"my-validator\",node_type=\"Validator\",network=\"Testnet\",hardware_generation=\"\"} 1"));
    assert!(text.contains("stellar_zk_archive_chain_gaps_total{namespace=\"stellar\",name=\"my-validator\",node_type=\"Validator\",network=\"Testnet\",hardware_generation=\"\"} 2"));
}

#[test]
fn test_soroban_labels_creation() {
    let labels = SorobanLabels {
        namespace: "stellar-system".to_string(),
        name: "soroban-prod".to_string(),
        network: "mainnet".to_string(),
        contract_id: "CDLZFC3SYJYDZT7K67VZ75HPJVIEUVNIXF47ZG2FB2RMQQVU2HHGCYSC".to_string(),
    };
    assert_eq!(labels.namespace, "stellar-system");
    assert_eq!(labels.name, "soroban-prod");
    assert_eq!(labels.network, "mainnet");
    assert!(labels.contract_id.starts_with("CDLZFC"));
}

#[test]
fn test_inc_operator_reconcile_error() {
    let mut m = OperatorMetrics::new();
    inc_operator_reconcile_error(&mut m, "stellarnode", "kube");
    inc_operator_reconcile_error(&mut m, "stellarnode", "validation");
    inc_operator_reconcile_error(&mut m, "stellarnode", "config");
    let text = exposition(&m);
    assert!(text.contains("kind=\"kube\"} 1"));
    assert!(text.contains("kind=\"config\"} 1"));
}

#[test]
fn test_operator_reconcile_errors_total_registered() {
    let mut m = OperatorMetrics::new();
    let labels = ErrorLabels { controller: "stellarnode".to_string(), kind: "test".to_string() };
    inc_operator_reconcile_error(&mut m, &labels.controller, &labels.kind);
    assert!(exposition(&m).contains("stellar_operator_reconcile_errors_total_total{controller=\"stellarnode\",kind=\"test\"} 1"));
}

#[test]
fn test_operator_reconcile_error_labels() {
    let labels = ErrorLabels { controller: "stellarnode".to_string(), kind: "unknown".to_string() };
    assert_eq!(labels.controller, "stellarnode");
    assert_eq!(labels.kind, "unknown");
    let mut m = OperatorMetrics::new();
    inc_operator_reconcile_error(&mut m, "stellarnode", "kube");
    inc_operator_reconcile_error(&mut m, "stellarnode", "validation");
    inc_operator_reconcile_error(&mut m, "stellarnode", "config");
    inc_operator_reconcile_error(&mut m, "stellarnode", "unknown");
    assert!(exposition(&m).contains("kind=\"unknown\"} 1"));
}

#[test]
fn counters_accumulate_per_label_set() {
    let mut m = OperatorMetrics::new();
    inc_reconcile_error(&mut m, "stellarnode", "kube");
    inc_reconcile_error(&mut m, "stellarnode", "kube");
    inc_reconcile_error(&mut m, "other", "kube");
    let text = exposition(&m);
    assert!(text.contains("stellar_reconcile_errors_total_total{controller=\"stellarnode\",kind=\"kube\"} 2"));
    assert!(text.contains("stellar_reconcile_errors_total_total{controller=\"other\",kind=\"kube\"} 1"));
}

#[test]
fn reactive_counters_are_separate() {
    let mut m = OperatorMetrics::new();
    inc_reactive_status_update(&mut m, "ns", "n");
    inc_api_polls_avoided(&mut m, "ns", "n");
    inc_api_polls_avoided(&mut m, "ns", "n");
    let text = exposition(&m);
    assert!(text.contains("stellar_reactive_status_updates_total_total{namespace=\"ns\",name=\"n\"} 1"));
    assert!(text.contains("stellar_api_polls_avoided_total_total{namespace=\"ns\",name=\"n\"} 2"));
}

#[test]
fn node_sync_status_uses_phase_values() {
    let mut m = OperatorMetrics::new();
    set_node_sync_status(&mut m, "ns", "a", "core", "testnet", "x", "Ready");
    set_node_sync_status(&mut m, "ns", "b", "core", "testnet", "x", "Bogus");
    set_node_sync_status(&mut m, "ns", "c", "core", "testnet", "x", "Terminating");
    let text = exposition(&m);
    assert!(text.contains("name=\"a\",node_type=\"core\",network=\"testnet\",hardware_generation=\"x\"} 4"));
    assert!(text.contains("name=\"b\",node_type=\"core\",network=\"testnet\",hardware_generation=\"x\"} 0"));
    assert!(text.contains("name=\"c\",node_type=\"core\",network=\"testnet\",hardware_generation=\"x\"} 9"));
}

#[test]
fn phase_names_round_trip() {
    for p in [
        NodePhase::Pending,
        NodePhase::Creating,
        NodePhase::Running,
        NodePhase::Syncing,
        NodePhase::Ready,
        NodePhase::Failed,
        NodePhase::Degraded,
        NodePhase::Suspended,
        NodePhase::Remediating,
        NodePhase::Terminating,
    ] {
        assert_eq!(NodePhase::parse_phase(p.name()), p);
    }
    assert_eq!(NodePhase::parse_phase("Suspended").value(), 7);
    assert_eq!(NodePhase::parse_phase("nope"), NodePhase::Pending);
}

#[test]
fn node_up_is_binary() {
    let mut m = OperatorMetrics::new();
    set_node_up(&mut m, "ns", "up", "core", "t", "h", true);
    set_node_up(&mut m, "ns", "down", "core", "t", "h", false);
    let text = exposition(&m);
    assert!(text.contains("stellar_node_up{namespace=\"ns\",name=\"up\",node_type=\"core\",network=\"t\",hardware_generation=\"h\"} 1"));
    assert!(text.contains("stellar_node_up{namespace=\"ns\",name=\"down\",node_type=\"core\",network=\"t\",hardware_generation=\"h\"} 0"));
}

#[test]
fn ledger_sequence_above_i64_wraps_like_as_cast() {
    let mut m = OperatorMetrics::new();
    set_ledger_sequence(&mut m, "ns", "n", "core", "t", "h", u64::MAX);
    assert!(exposition(&m).contains("stellar_node_ledger_sequence{namespace=\"ns\",name=\"n\",node_type=\"core\",network=\"t\",hardware_generation=\"h\"} -1"));
}

#[test]
fn alert_gauges_track_active_count() {
    let mut m = OperatorMetrics::new();
    inc_observability_alert(&mut m);
    inc_observability_alert(&mut m);
    inc_observability_alert_resolved(&mut m);
    inc_observability_alert_resolved(&mut m);
    inc_observability_alert_resolved(&mut m);
    inc_observability_anomaly(&mut m, "spike", "cpu");
    let text = exposition(&m);
    assert!(text.contains("stellar_observability_alerts_active 0"));
    assert!(text.contains("stellar_observability_alerts_total_total 2"));
    assert!(text.contains("stellar_observability_alerts_resolved_total_total 3"));
    assert!(text.contains("stellar_observability_anomalies_active 1"));
}

#[test]
fn operator_info_defaults_unknown() {
    let mut m = OperatorMetrics::new();
    init_operator_info(&mut m, "0.1.0", None, Some("1.80"));
    inc_uptime_seconds(&mut m, 30);
    let text = exposition(&m);
    assert!(text.contains("stellar_operator_info{version=\"0.1.0\",git_sha=\"unknown\",rust_version=\"1.80\"} 1"));
    assert!(text.contains("stellar_operator_uptime_seconds_total 30"));
}
