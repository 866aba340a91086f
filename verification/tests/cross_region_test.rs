use stellar_k8s::cross_region::{
    bridge_config_data, choose_failover_region, commit_decision, latest_live_ledger, needs_sidecar_activation,
    parse_ledger_entry, region_status, rpo_compliant, staging_secret, CommitError, CrossRegionSyncConfig,
    FailoverPolicy, FailoverRefusal, LedgerStateSnapshot, RegionSyncStatus, ReplicaSecret,
};

fn status(region: &str, ledger: u64, lag: i64, healthy: bool) -> RegionSyncStatus {
    RegionSyncStatus {
        region: region.to_string(),
        last_synced_ledger: ledger,
        replication_lag_ledgers: lag,
        last_sync_time: 0,
        healthy,
        error_message: None,
    }
}

#[test]
fn default_config_is_sane() {
    let cfg = CrossRegionSyncConfig::default();
    assert_eq!(cfg.sync_interval_secs, 30);
    assert_eq!(cfg.failure_threshold, 3);
    assert_eq!(cfg.failover_policy, FailoverPolicy::Manual);
    assert_eq!(cfg.max_lag_ledgers, 100);
    assert!(cfg.two_phase_commit);
}

#[test]
fn region_sync_status_fields() {
    let s = RegionSyncStatus {
        region: "eu-west-1".to_string(),
        last_synced_ledger: 5_000_000,
        replication_lag_ledgers: 12,
        last_sync_time: 0,
        healthy: true,
        error_message: None,
    };
    assert!(s.healthy);
    assert_eq!(s.replication_lag_ledgers, 12);
}

#[test]
fn failover_policy_debug() {
    assert_eq!(FailoverPolicy::Automated.name(), "Automated");
    assert_eq!(FailoverPolicy::Manual.name(), "Manual");
}

#[test]
fn bridge_data_in_key_order() {
    let cfg = CrossRegionSyncConfig::default();
    let data = bridge_config_data(&cfg, "[]");
    let keys: Vec<&str> = data.iter().map(|(k, _)| k.as_str()).collect();
    assert_eq!(keys, vec!["failover_policy", "failure_threshold", "max_lag_ledgers", "sync_interval_secs", "target_regions"]);
    assert_eq!(data[0].1, "Manual");
    assert_eq!(data[3].1, "30");
}

#[test]
fn sidecar_activation() {
    assert!(needs_sidecar_activation(None, "eu"));
    assert!(needs_sidecar_activation(Some("us"), "eu"));
    assert!(!needs_sidecar_activation(Some("eu"), "eu"));
}

#[test]
fn staging_then_commit() {
    let snap = LedgerStateSnapshot {
        ledger_sequence: 1_234_567,
        checksum: "abc123".to_string(),
        captured_at: 1_700_000_000,
        source_region: "us-east-1".to_string(),
        state_payload: vec![0u8, 1, 2, 3],
    };
    let staged = staging_secret(&snap);
    assert_eq!(staged.name, "stellar-sync-staging-us-east-1-1234567");
    assert_eq!(staged.data[0], ("captured_at".to_string(), b"1700000000".to_vec()));
    assert_eq!(staged.data[2], ("ledger_sequence".to_string(), b"1234567".to_vec()));
    assert_eq!(staged.data[4], ("state_payload".to_string(), b"AAECAw==".to_vec()));
    let live = commit_decision(&staged.name, true, "abc123", "abc123").unwrap();
    assert_eq!(live, "stellar-sync-live-us-east-1-1234567");
    match commit_decision(&staged.name, true, "zzz", "abc123") {
        Err(CommitError::ChecksumMismatch { expected, actual }) => {
            assert_eq!(expected, "abc123");
            assert_eq!(actual, "zzz");
        },
        other => panic!("unexpected {other:?}"),
    }
    assert!(matches!(commit_decision(&staged.name, false, "", "abc123"), Err(CommitError::NoData)));
}

#[test]
fn latest_live_ledger_ignores_staging_and_garbage() {
    let secrets = vec![
        ReplicaSecret { name: "stellar-sync-live-a-10".to_string(), ledger_entry: Some(b"10".to_vec()) },
        ReplicaSecret { name: "stellar-sync-staging-a-99".to_string(), ledger_entry: Some(b"99".to_vec()) },
        ReplicaSecret { name: "stellar-sync-live-a-12".to_string(), ledger_entry: Some(b"12".to_vec()) },
        ReplicaSecret { name: "stellar-sync-live-a-x".to_string(), ledger_entry: Some(b"x1".to_vec()) },
        ReplicaSecret { name: "stellar-sync-live-a-y".to_string(), ledger_entry: None },
    ];
    assert_eq!(latest_live_ledger(&secrets), 12);
    assert_eq!(latest_live_ledger(&[]), 0);
    assert_eq!(parse_ledger_entry(b"+7"), Some(7));
    assert_eq!(parse_ledger_entry(&[0xff, b'1']), None);
}

#[test]
fn lag_and_rpo() {
    let ok = region_status("eu", Ok(90), 100, 5);
    assert_eq!(ok.replication_lag_ledgers, 10);
    assert!(ok.healthy);
    let err = region_status("us", Err("boom".to_string()), 100, 5);
    assert!(!err.healthy);
    assert_eq!(err.replication_lag_ledgers, 100);
    assert_eq!(err.error_message.as_deref(), Some("boom"));
    assert!(rpo_compliant(&[status("a", 0, 12, true)], 60));
    assert!(!rpo_compliant(&[status("a", 0, 13, true)], 60));
}

#[test]
fn failover_choice() {
    let regions = vec![status("a", 10, 0, true), status("b", 12, 0, false), status("c", 11, 0, true), status("d", 11, 0, true)];
    assert_eq!(choose_failover_region(FailoverPolicy::Manual, &regions), Err(FailoverRefusal::Disabled));
    assert_eq!(choose_failover_region(FailoverPolicy::Automated, &regions), Ok(3));
    let down = vec![status("a", 10, 0, false)];
    assert_eq!(choose_failover_region(FailoverPolicy::Automated, &down), Err(FailoverRefusal::NoHealthyReplica));
}
