use stellar_k8s::health::{
    ledger_sync_status, liveness_endpoints, liveness_response, readiness_response, soroban_sync_status, StatusSource,
    SyncStatus,
};

#[test]
fn test_sync_status_default() {
    let status = SyncStatus::default();
    assert!(!status.is_synced);
    assert_eq!(status.ledger_num, 0);
}

#[test]
fn test_sync_status_synced() {
    let status = SyncStatus { is_synced: true, ledger_num: 1000, network_ledger: 1005, last_check: 0 };
    assert!(status.is_synced);
}

#[test]
fn sync_tolerances() {
    assert!(ledger_sync_status(StatusSource::Core, 1000, 1010, 0).is_synced);
    assert!(!ledger_sync_status(StatusSource::Core, 1000, 1011, 0).is_synced);
    assert!(ledger_sync_status(StatusSource::Horizon, 1000, 1005, 0).is_synced);
    assert!(!ledger_sync_status(StatusSource::Horizon, 1000, 1006, 0).is_synced);
    assert!(!ledger_sync_status(StatusSource::Core, 0, 0, 0).is_synced);
    assert!(soroban_sync_status(Some("healthy"), 1, 5, 0).is_synced);
    assert!(!soroban_sync_status(Some("degraded"), 1, 5, 0).is_synced);
    assert!(!soroban_sync_status(Some("healthy"), 1, 0, 0).is_synced);
}

#[test]
fn probe_answers() {
    let (code, body) = readiness_response(&SyncStatus { is_synced: true, ledger_num: 7, network_ledger: 8, last_check: 0 });
    assert_eq!(code, 200);
    assert_eq!(body.status, "ready");
    let (code, body) = readiness_response(&SyncStatus::default());
    assert_eq!(code, 503);
    assert_eq!(body.status, "syncing");
    assert_eq!(liveness_response(true).1.status, "alive");
    assert_eq!(liveness_response(false).0, 503);
    assert_eq!(liveness_endpoints("http://core:11626"), vec!["http://core:11626/info", "http://core:11626/", "http://core:11626/health"]);
}
