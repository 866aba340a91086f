use stellar_k8s::crd::{NodeType, StellarNetwork};
use stellar_k8s::horizon_metrics_collector::{horizon_endpoint, info_url, metric_samples, metrics_url, poll_interval_secs};

/// The value of the last sample of `name` whose text parses, as the
/// collector reads it.
fn value(text: &str, name: &str) -> Option<f64> {
    let mut v = None;
    for (k, s) in metric_samples(text) {
        if k == name {
            if let Ok(x) = s.parse::<f64>() {
                v = Some(x);
            }
        }
    }
    v
}

fn int_value(text: &str, name: &str) -> i64 {
    value(text, name).unwrap_or(0.0) as i64
}

#[test]
fn test_parse_prometheus_metrics_basic() {
    let text = r#"
# HELP horizon_ingest_transactions_per_second Ingestion TPS
# TYPE horizon_ingest_transactions_per_second gauge
horizon_ingest_transactions_per_second 42
# HELP horizon_ingest_pending_txqueue_count Pending tx queue
# TYPE horizon_ingest_pending_txqueue_count gauge
horizon_ingest_pending_txqueue_count 187
# HELP horizon_ingest_latest_ledger Current ledger
# TYPE horizon_ingest_latest_ledger gauge
horizon_ingest_latest_ledger 49500000
"#;
    assert_eq!(int_value(text, "horizon_ingest_transactions_per_second"), 42);
    assert_eq!(int_value(text, "horizon_ingest_pending_txqueue_count"), 187);
    assert_eq!(value(text, "horizon_ingest_latest_ledger").unwrap_or(0.0) as u64, 49_500_000);
}

#[test]
fn test_parse_prometheus_metrics_with_labels() {
    let text = r#"
horizon_ingest_transactions_per_second{instance="h0"} 75
horizon_ingest_pending_txqueue_count{instance="h0"} 300
"#;
    assert_eq!(int_value(text, "horizon_ingest_transactions_per_second"), 75);
    assert_eq!(int_value(text, "horizon_ingest_pending_txqueue_count"), 300);
}

#[test]
fn test_parse_prometheus_metrics_missing_values() {
    let text = "";
    assert!(metric_samples(text).is_empty());
    assert_eq!(int_value(text, "horizon_ingest_transactions_per_second"), 0);
    assert_eq!(int_value(text, "horizon_ingest_pending_txqueue_count"), 0);
    assert_eq!(value(text, "horizon_ingest_latest_ledger").unwrap_or(0.0) as u64, 0);
}

#[test]
fn test_parse_prometheus_metrics_float_truncation() {
    let text = "horizon_ingest_transactions_per_second 99.7\n";
    // i64 truncation: 99.7 -> 99
    assert_eq!(int_value(text, "horizon_ingest_transactions_per_second"), 99);
}

#[test]
fn samples_keep_name_and_first_word_of_value() {
    let text = "a{x=\"1\"}  5 1700000000\r\nb 7\n\n#c 1\nnovalue\n  d   8  ";
    let s = metric_samples(text);
    assert_eq!(
        s,
        vec![
            ("a".to_string(), "5".to_string()),
            ("b".to_string(), "7".to_string()),
            ("d".to_string(), "8".to_string()),
        ]
    );
}

#[test]
fn endpoints_only_for_horizon_nodes() {
    let e = horizon_endpoint(NodeType::Horizon, &Some("h1".to_string()), &None, &StellarNetwork::Testnet).unwrap();
    assert_eq!(e.namespace, "default");
    assert_eq!(e.name, "h1");
    assert_eq!(e.horizon_url, "http://h1.default.svc.cluster.local:8000");
    assert_eq!(e.node_type, "horizon");
    assert_eq!(e.network, "testnet");
    assert_eq!(e.hardware_generation, "unknown");
    let c = horizon_endpoint(NodeType::Horizon, &None, &Some("ns".to_string()), &StellarNetwork::Custom("x".to_string()))
        .unwrap();
    assert_eq!(c.horizon_url, "http://unknown.ns.svc.cluster.local:8000");
    assert_eq!(c.network, "custom");
    assert!(horizon_endpoint(NodeType::Validator, &None, &None, &StellarNetwork::Mainnet).is_none());
}

#[test]
fn urls_drop_trailing_slashes() {
    assert_eq!(metrics_url("http://h:8000//"), "http://h:8000/metrics");
    assert_eq!(info_url("http://h:8000"), "http://h:8000/info");
}

#[test]
fn poll_interval_is_at_least_five_seconds() {
    assert_eq!(poll_interval_secs(1), 5);
    assert_eq!(poll_interval_secs(30), 30);
}
