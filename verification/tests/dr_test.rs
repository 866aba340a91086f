use stellar_k8s::dr::{
    dr_step, evaluate_failover, resolve_peer_candidates, sync_lag, DRRole, DRSyncStrategy, DisasterRecoveryConfig,
    DisasterRecoveryStatus, FailoverAction, PeerCandidate, PeerClusterConfig, DR_FAILOVER_ANNOTATION,
    DR_LAST_SYNC_ANNOTATION,
};

fn dr_config(role: DRRole, sync: DRSyncStrategy) -> DisasterRecoveryConfig {
    DisasterRecoveryConfig {
        enabled: true,
        role,
        peer_cluster_id: "us-west-2".to_string(),
        sync_strategy: sync,
        failover_dns: None,
        health_check_interval: 30,
        drill_schedule: None,
        archive_integrity_config: None,
    }
}

fn fresh_status() -> DisasterRecoveryStatus {
    DisasterRecoveryStatus::default()
}

fn peer(id: &str, priority: u32) -> PeerCandidate {
    PeerCandidate { cluster_id: id.to_string(), priority }
}

#[test]
fn test_dr_config_disabled_is_skipped() {
    let config = DisasterRecoveryConfig {
        enabled: false,
        role: DRRole::Standby,
        peer_cluster_id: "eu-central-1".to_string(),
        sync_strategy: DRSyncStrategy::Consensus,
        failover_dns: None,
        health_check_interval: 30,
        drill_schedule: None,
        archive_integrity_config: None,
    };
    assert!(!config.enabled);
    let peers = vec![peer("eu-central-1", 100)];
    let r = dr_step(Some(&config), fresh_status(), None, &peers, &vec![false], 100, "2026-02-21T18:00:00Z");
    assert!(r.is_none());
}

#[test]
fn dr_step_without_config_does_nothing() {
    let r = dr_step(None, fresh_status(), None, &vec![], &vec![], 100, "2026-02-21T18:00:00Z");
    assert!(r.is_none());
}

#[test]
fn dr_step_evaluates_enabled_config() {
    let config = dr_config(DRRole::Standby, DRSyncStrategy::Consensus);
    let peers = vec![peer("us-west-2", 100)];
    let r = dr_step(Some(&config), fresh_status(), None, &peers, &vec![false], 100, "2026-02-21T18:00:00Z").unwrap();
    assert_eq!(r.action, FailoverAction::Initiated);
    assert_eq!(r.status.current_role, Some(DRRole::Primary));
}

#[test]
fn test_primary_role_no_failover_triggered() {
    let config = dr_config(DRRole::Primary, DRSyncStrategy::Consensus);
    let status = fresh_status();
    let peers = vec![peer("us-west-2", 100)];
    let r = evaluate_failover(&config, status, None, &peers, &vec![true], 100, "2026-02-21T18:00:00Z");
    assert_eq!(r.action, FailoverAction::Steady);
    assert_eq!(r.status.current_role, Some(DRRole::Primary));
    assert!(!r.status.failover_active);
    assert_eq!(r.status.peer_health.as_deref(), Some("Healthy"));
}

#[test]
fn test_failover_triggered_when_peer_unreachable() {
    let config = dr_config(DRRole::Standby, DRSyncStrategy::Consensus);
    let status = fresh_status();
    let peers = vec![peer("us-west-2", 100)];
    let r = evaluate_failover(&config, status, None, &peers, &vec![false], 100, "2026-02-21T18:00:00Z");
    assert_eq!(r.action, FailoverAction::Initiated);
    assert!(r.status.failover_active);
    assert_eq!(r.status.current_role, Some(DRRole::Primary));
    assert_eq!(r.status.peer_health.as_deref(), Some("Unreachable"));
}

#[test]
fn test_failover_not_re_triggered_when_already_active() {
    let config = dr_config(DRRole::Standby, DRSyncStrategy::Consensus);
    let mut status = fresh_status();
    status.failover_active = true;
    status.current_role = Some(DRRole::Primary);
    let peers = vec![peer("us-west-2", 100)];
    let r = evaluate_failover(&config, status, None, &peers, &vec![false], 100, "2026-02-21T18:00:00Z");
    assert_ne!(r.action, FailoverAction::Initiated);
    assert_eq!(r.action, FailoverAction::AlreadyActive);
    assert!(r.status.failover_active);
    assert_eq!(r.status.current_role, Some(DRRole::Primary));
}

#[test]
fn test_no_op_when_everything_healthy() {
    let config = dr_config(DRRole::Standby, DRSyncStrategy::Consensus);
    let status = fresh_status();
    let peers = vec![peer("us-west-2", 100)];
    let r = evaluate_failover(&config, status, None, &peers, &vec![true], 100, "2026-02-21T18:00:00Z");
    assert_eq!(r.action, FailoverAction::Steady);
    assert_eq!(r.status.current_role, Some(DRRole::Standby));
    assert!(!r.status.failover_active);
    assert_eq!(r.status.peer_health.as_deref(), Some("Healthy"));
    assert_eq!(r.status.last_peer_contact.as_deref(), Some("2026-02-21T18:00:00Z"));
}

fn target(id: &str, endpoint: &str, region: Option<&str>, priority: u32, enabled: bool) -> PeerClusterConfig {
    PeerClusterConfig {
        cluster_id: id.to_string(),
        endpoint: endpoint.to_string(),
        latency_threshold_ms: None,
        region: region.map(|r| r.to_string()),
        priority,
        port: None,
        enabled,
    }
}

#[test]
fn test_backup_targets_sorted_by_priority_descending() {
    let targets = vec![
        target("eu-central-1", "10.0.0.1", Some("eu"), 50, true),
        target("us-east-1", "10.0.0.2", Some("us"), 150, true),
        target("ap-south-1", "10.0.0.3", Some("ap"), 100, true),
    ];
    let sorted = resolve_peer_candidates("auto", Some(&targets));
    assert_eq!(sorted[0].cluster_id, "us-east-1");
    assert_eq!(sorted[1].cluster_id, "ap-south-1");
    assert_eq!(sorted[2].cluster_id, "eu-central-1");
}

#[test]
fn test_disabled_backup_targets_excluded() {
    let targets = vec![
        target("us-east-1", "10.0.0.1", None, 100, true),
        target("us-west-1", "10.0.0.2", None, 80, false),
    ];
    let active = resolve_peer_candidates("auto", Some(&targets));
    assert_eq!(active.len(), 1);
    assert_eq!(active[0].cluster_id, "us-east-1");
}

#[test]
fn test_sync_lag_computed_from_peer_minus_local() {
    let peer_ledger: u64 = 1_234_567;
    let local_ledger: u64 = 1_234_500;
    assert_eq!(sync_lag(peer_ledger, local_ledger), 67);
}

#[test]
fn test_sync_lag_zero_when_local_ahead() {
    let peer_ledger: u64 = 1_000;
    let local_ledger: u64 = 1_010;
    assert_eq!(sync_lag(peer_ledger, local_ledger), 0);
}

#[test]
fn test_dr_status_default_values() {
    let status = DisasterRecoveryStatus::default();
    assert!(status.current_role.is_none());
    assert!(status.peer_health.is_none());
    assert!(status.last_peer_contact.is_none());
    assert!(status.sync_lag.is_none());
    assert!(!status.failover_active);
}

#[test]
fn test_dr_annotation_constants() {
    assert_eq!(DR_FAILOVER_ANNOTATION, "stellar.org/dr-failover-active");
    assert_eq!(DR_LAST_SYNC_ANNOTATION, "stellar.org/dr-last-sync-time");
}

#[test]
fn equal_priorities_keep_declaration_order() {
    let targets = vec![
        target("a", "10.0.0.1", None, 100, true),
        target("b", "10.0.0.2", None, 200, true),
        target("c", "10.0.0.3", None, 100, true),
    ];
    let sorted = resolve_peer_candidates("auto", Some(&targets));
    let ids: Vec<&str> = sorted.iter().map(|c| c.cluster_id.as_str()).collect();
    assert_eq!(ids, vec!["b", "a", "c"]);
}

#[test]
fn named_peer_gets_priority_100() {
    let sorted = resolve_peer_candidates("us-west-2", None);
    assert_eq!(sorted.len(), 1);
    assert_eq!(sorted[0].cluster_id, "us-west-2");
    assert_eq!(sorted[0].priority, 100);
}

#[test]
fn primary_is_never_failed_over() {
    let config = dr_config(DRRole::Primary, DRSyncStrategy::Consensus);
    let peers = vec![peer("us-west-2", 100)];
    let r = evaluate_failover(&config, fresh_status(), None, &peers, &vec![false], 0, "t");
    assert_ne!(r.action, FailoverAction::Initiated);
    assert!(!r.status.failover_active);
}
