use stellar_k8s::crd::NodeType;
use stellar_k8s::operator_config::{hardcoded_defaults, OperatorConfig, ReconcilerConfig};

#[test]
fn test_hardcoded_defaults_non_empty() {
    for nt in [NodeType::Validator, NodeType::Horizon, NodeType::SorobanRpc] {
        let d = hardcoded_defaults(&nt);
        assert!(!d.requests.cpu.is_empty(), "requests.cpu must not be empty for {nt:?}");
        assert!(!d.limits.memory.is_empty(), "limits.memory must not be empty for {nt:?}");
    }
}

#[test]
fn test_defaults_for_returns_none_on_empty() {
    let cfg = OperatorConfig::default();
    assert!(cfg.defaults_for(&NodeType::Horizon).is_none());
}

#[test]
fn test_reconciler_config_defaults() {
    let config = ReconcilerConfig::default();
    assert_eq!(config.requeue_interval, 60);
    assert_eq!(config.error_backoff_base, 15);
    assert_eq!(config.max_backoff, 300);
    assert!(config.enable_jitter);
}

#[test]
fn test_calculate_backoff_exponential() {
    let config = ReconcilerConfig { requeue_interval: 60, error_backoff_base: 10, max_backoff: 300, enable_jitter: false };
    assert_eq!(config.calculate_backoff(0).as_secs(), 10);
    assert_eq!(config.calculate_backoff(1).as_secs(), 20);
    assert_eq!(config.calculate_backoff(2).as_secs(), 40);
    assert_eq!(config.calculate_backoff(3).as_secs(), 80);
    assert_eq!(config.calculate_backoff(4).as_secs(), 160);
}

#[test]
fn test_calculate_backoff_max_cap() {
    let config = ReconcilerConfig { requeue_interval: 60, error_backoff_base: 10, max_backoff: 100, enable_jitter: false };
    assert_eq!(config.calculate_backoff(5).as_secs(), 100);
    assert_eq!(config.calculate_backoff(10).as_secs(), 100);
}

#[test]
fn test_calculate_backoff_with_jitter() {
    let config = ReconcilerConfig { requeue_interval: 60, error_backoff_base: 10, max_backoff: 300, enable_jitter: true };
    for _ in 0..50 {
        let backoff = config.calculate_backoff(2).as_secs();
        assert!((20..=60).contains(&backoff), "Backoff {backoff} not in range [20, 60]");
    }
}

#[test]
fn test_calculate_backoff_overflow_protection() {
    let config =
        ReconcilerConfig { requeue_interval: 60, error_backoff_base: u64::MAX / 2, max_backoff: 300, enable_jitter: false };
    assert_eq!(config.calculate_backoff(10).as_secs(), 300);
    assert_eq!(config.backoff_secs(200), 300);
}

#[test]
fn configured_defaults_are_returned() {
    let mut cfg = OperatorConfig::default();
    cfg.default_resources.validator.requests.cpu = "999m".to_string();
    let d = cfg.defaults_for(&NodeType::Validator).unwrap();
    assert_eq!(d.requests.cpu, "999m");
    assert!(cfg.defaults_for(&NodeType::SorobanRpc).is_none());
}

#[test]
fn hardcoded_values() {
    let v = hardcoded_defaults(&NodeType::Validator);
    assert_eq!((v.requests.cpu.as_str(), v.requests.memory.as_str()), ("500m", "1Gi"));
    let s = hardcoded_defaults(&NodeType::SorobanRpc);
    assert_eq!((s.limits.cpu.as_str(), s.limits.memory.as_str()), ("4", "8Gi"));
}

#[test]
fn jittered_backoff_never_exceeds_max() {
    let config = ReconcilerConfig { requeue_interval: 60, error_backoff_base: 100, max_backoff: 100, enable_jitter: true };
    for _ in 0..50 {
        let backoff = config.calculate_backoff(3).as_secs();
        assert!((50..=100).contains(&backoff), "Backoff {backoff} not in range [50, 100]");
    }
}
