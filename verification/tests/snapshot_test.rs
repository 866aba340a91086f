use stellar_k8s::snapshot::{
    validator_manifests, ValidatorResources, verification_step, ConsensusDetails, IntegrityReport, IntegrityStatus, StepOutcome, VerificationStep,
};

fn empty_report() -> IntegrityReport {
    IntegrityReport {
        timestamp_ms: 0,
        snapshot_id: "snap-1.tar.gz".to_string(),
        snapshot_source: "S3".to_string(),
        status: IntegrityStatus::Fail,
        duration_seconds: 0,
        checks: Vec::new(),
        consensus_details: None,
        error_message: None,
    }
}

fn details(achieved: bool) -> ConsensusDetails {
    ConsensusDetails {
        ledgers_verified: 12,
        consensus_achieved: achieved,
        final_ledger_hash: "abc".to_string(),
        sync_time_seconds: 30,
    }
}

#[test]
fn full_run_records_each_step_in_order() {
    let mut report = empty_report();
    let next = verification_step(&mut report, VerificationStep::Deploy, StepOutcome::Deployed);
    assert_eq!(next, Some(VerificationStep::Restore));
    let next = verification_step(&mut report, VerificationStep::Restore, StepOutcome::Restored(Ok(())));
    assert_eq!(next, Some(VerificationStep::Health));
    let next = verification_step(&mut report, VerificationStep::Health, StepOutcome::Healthy(true));
    assert_eq!(next, Some(VerificationStep::Consensus));
    let next = verification_step(
        &mut report,
        VerificationStep::Consensus,
        StepOutcome::Consensus(Ok(details(true)), 250),
    );
    assert_eq!(next, None);
    let names: Vec<&str> = report.checks.iter().map(|c| c.name.as_str()).collect();
    assert_eq!(names, vec!["DeployValidator", "RestoreSnapshot", "ValidatorHealth", "ConsensusVerification"]);
    assert!(report.checks.iter().all(|c| c.passed));
    assert_eq!(report.checks[3].message, "Verified 12 ledgers, consensus: true");
    assert_eq!(report.checks[3].duration_ms, 250);
    assert_eq!(report.error_message, None);
    assert_eq!(report.consensus_details.as_ref().map(|d| d.ledgers_verified), Some(12));
}

#[test]
fn failed_restore_ends_the_run() {
    let mut report = empty_report();
    let next = verification_step(
        &mut report,
        VerificationStep::Restore,
        StepOutcome::Restored(Err("disk full".to_string())),
    );
    assert_eq!(next, None);
    assert!(!report.checks[0].passed);
    assert_eq!(report.checks[0].message, "Failed to restore snapshot: disk full");
    assert_eq!(report.error_message, None);
}

#[test]
fn unhealthy_validator_ends_the_run() {
    let mut report = empty_report();
    let next = verification_step(&mut report, VerificationStep::Health, StepOutcome::Healthy(false));
    assert_eq!(next, None);
    assert_eq!(report.checks[0].message, "Validator health check failed");
    assert_eq!(report.error_message.as_deref(), Some("Validator failed to start properly"));
}

#[test]
fn consensus_not_achieved_sets_the_error() {
    let mut report = empty_report();
    let next = verification_step(
        &mut report,
        VerificationStep::Consensus,
        StepOutcome::Consensus(Ok(details(false)), 10),
    );
    assert_eq!(next, None);
    assert!(!report.checks[0].passed);
    assert_eq!(report.checks[0].message, "Verified 12 ledgers, consensus: false");
    assert_eq!(report.error_message.as_deref(), Some("Failed to achieve consensus"));
    assert!(report.consensus_details.is_some());
}

#[test]
fn consensus_error_is_recorded() {
    let mut report = empty_report();
    let next = verification_step(
        &mut report,
        VerificationStep::Consensus,
        StepOutcome::Consensus(Err("timed out".to_string()), 5),
    );
    assert_eq!(next, None);
    assert_eq!(report.checks[0].message, "Consensus verification failed: timed out");
    assert_eq!(report.error_message.as_deref(), Some("timed out"));
    assert!(report.consensus_details.is_none());
}

#[test]
fn temporary_validator_manifests() {
    let resources = ValidatorResources {
        cpu_limit: "4000m".to_string(),
        memory_limit: "8Gi".to_string(),
        storage_size: "200Gi".to_string(),
    };
    let m = validator_manifests("verify-snap-1", "snap-1.tar.gz", &resources);
    assert_eq!(m.volume_claim.name, "temp-validator-data");
    assert_eq!(m.volume_claim.namespace, "verify-snap-1");
    assert_eq!(m.volume_claim.storage, "200Gi");
    let sts = &m.stateful_set;
    assert_eq!(sts.name, "temp-validator");
    assert_eq!(
        sts.labels,
        vec![
            ("app".to_string(), "temp-validator".to_string()),
            ("stellar.org/snapshot-id".to_string(), "snap-1.tar.gz".to_string())
        ]
    );
    assert_eq!(sts.image, "stellar/stellar-core:latest");
    assert_eq!((sts.limits.cpu.as_str(), sts.limits.memory.as_str()), ("4000m", "8Gi"));
    assert_eq!((sts.requests.cpu.as_str(), sts.requests.memory.as_str()), ("2000m", "4Gi"));
    assert_eq!(sts.claim_name, "temp-validator-data");
    let ports: Vec<(&str, u16)> = m.service.ports.iter().map(|p| (p.name.as_str(), p.port)).collect();
    assert_eq!(ports, vec![("peer", 11625), ("http", 11626)]);
    assert!(m.service.headless);
}
