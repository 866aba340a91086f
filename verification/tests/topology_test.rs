use stellar_k8s::topology::{analyze, derive_phase, simulate_failures, TopologyAnalysis, TopologyPhase, TopologyValidator};

fn val(name: &str, peers: &[&str]) -> TopologyValidator {
    TopologyValidator { name: name.to_string(), peers: peers.iter().map(|s| s.to_string()).collect() }
}

/// A fully-meshed three-validator network.
fn mesh3() -> Vec<TopologyValidator> {
    vec![val("a", &["b", "c"]), val("b", &["a", "c"]), val("c", &["a", "b"])]
}

fn all_online(vs: &[TopologyValidator]) -> Vec<String> {
    vs.iter().map(|v| v.name.clone()).collect()
}

fn pct(a: &TopologyAnalysis) -> f64 {
    if a.total_validators == 0 {
        0.0
    } else {
        a.online_validators as f64 / a.total_validators as f64 * 100.0
    }
}

fn phase(a: &TopologyAnalysis, min_online_pct: f64) -> TopologyPhase {
    derive_phase(a.partition_detected, pct(a) < min_online_pct, a.total_validators)
}

#[test]
fn fully_connected_network_is_healthy() {
    let spec = mesh3();
    let a = analyze(&spec, &all_online(&spec));
    assert_eq!(phase(&a, 66.0), TopologyPhase::Healthy);
    assert!(!a.partition_detected);
    assert_eq!(a.components.len(), 1);
    assert_eq!(a.online_validators, 3);
    assert!((pct(&a) - 100.0).abs() < 1e-9);
    assert!(a.recommendations.is_empty());
}

#[test]
fn split_network_is_detected_as_partition() {
    // Two pairs with no link between them: {a,b} and {c,d}.
    let spec = vec![val("a", &["b"]), val("b", &["a"]), val("c", &["d"]), val("d", &["c"])];
    let a = analyze(&spec, &all_online(&spec));
    assert!(a.partition_detected);
    assert_eq!(phase(&a, 66.0), TopologyPhase::Partitioned);
    assert_eq!(a.components.len(), 2);
    assert!(a.recommendations.iter().any(|r| r.contains("partitioned")));
}

#[test]
fn too_few_online_is_degraded() {
    let spec = mesh3();
    // Only one of three online: connected (single node) but below 66%.
    let online = vec!["a".to_string()];
    let a = analyze(&spec, &online);
    assert!(!a.partition_detected);
    assert_eq!(phase(&a, 66.0), TopologyPhase::Degraded);
    assert!((pct(&a) - (100.0 / 3.0)).abs() < 1e-9);
}

#[test]
fn unknown_peer_references_are_ignored() {
    let spec = vec![val("a", &["b", "ghost"]), val("b", &["a"])];
    let a = analyze(&spec, &all_online(&spec));
    // "ghost" is not a declared validator, so a-b are still a single group.
    assert_eq!(a.components.len(), 1);
    assert_eq!(a.total_validators, 2);
}

#[test]
fn simulation_predicts_partition_from_node_removal() {
    // Line topology a-b-c: removing the bridge 'b' splits a from c.
    let spec = vec![val("a", &["b"]), val("b", &["a", "c"]), val("c", &["b"])];
    let intact = simulate_failures(&spec, &[]);
    assert!(!intact.partition_detected);

    let without_bridge = simulate_failures(&spec, &["b".to_string()]);
    assert!(without_bridge.partition_detected);
    assert_eq!(without_bridge.online_validators, 2);
    assert_eq!(without_bridge.components.len(), 2);
}

#[test]
fn poorly_connected_validator_is_flagged() {
    let spec = vec![val("a", &["b"]), val("b", &["a"])];
    let a = analyze(&spec, &all_online(&spec));
    // Each validator has only one peer (< 2).
    assert!(a.recommendations.iter().any(|r| r.contains("only 1 peer")));
}

#[test]
fn components_are_sorted_largest_first() {
    let spec = vec![
        val("e", &["d"]),
        val("d", &["e"]),
        val("c", &[]),
        val("a", &["b", "z"]),
        val("b", &["a"]),
        val("f", &["e"]),
    ];
    let online = vec!["a".to_string(), "b".to_string(), "c".to_string(), "d".to_string(), "e".to_string(), "f".to_string(), "x".to_string()];
    let a = analyze(&spec, &online);
    assert_eq!(a.total_validators, 6);
    assert_eq!(a.online_validators, 6);
    assert_eq!(
        a.components,
        vec![
            vec!["d".to_string(), "e".to_string(), "f".to_string()],
            vec!["a".to_string(), "b".to_string()],
            vec!["c".to_string()],
        ]
    );
    assert!(a.partition_detected);
    assert_eq!(
        a.recommendations.last().unwrap(),
        "Network is partitioned into 3 groups; add cross-group peer connections to restore a single connected component."
    );
    assert_eq!(
        a.recommendations[0],
        "Validator 'e' has only 1 peer(s); add redundant peers (>= 2) for resilience."
    );
}

#[test]
fn self_and_repeated_peers_count_once() {
    let spec = vec![val("a", &["a", "b", "b"]), val("b", &["a", "c"]), val("c", &["b"])];
    let a = analyze(&spec, &all_online(&spec));
    assert_eq!(
        a.recommendations,
        vec![
            "Validator 'a' has only 1 peer(s); add redundant peers (>= 2) for resilience.".to_string(),
            "Validator 'c' has only 1 peer(s); add redundant peers (>= 2) for resilience.".to_string(),
        ]
    );
    assert_eq!(a.components.len(), 1);
}

#[test]
fn empty_topology_is_pending() {
    let a = analyze(&[], &[]);
    assert_eq!(a.total_validators, 0);
    assert!(a.components.is_empty());
    assert_eq!(derive_phase(a.partition_detected, false, a.total_validators), TopologyPhase::Pending);
}
