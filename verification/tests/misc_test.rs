use stellar_k8s::audit::{
    content_md5, default_prefix, encrypt_audit_entry, s3_object_key, AdminAction, AuditEntry, ExternalAggregatorAuditSink,
    FileAuditSink, S3AuditSinkConfig,
};
use stellar_k8s::gitops::{GitOpsEngine, GitOpsUpgradeController, ProtocolUpgradeStep, ProtocolUpgradeTimeline};
use stellar_k8s::pvc::{blocked_event, expansion_event, outcome_event, BlockReason, ExpansionOutcome, OutcomeEvent, DEFAULT_POLL_INTERVAL_SECS};
use stellar_k8s::snapshot::{
    consensus_poll, report_status, snapshot_keys, temp_namespace_name, validator_health_check, ConsensusProgress,
    IntegrityCheck, IntegrityStatus, SnapshotIntegrityConfig,
};
use stellar_k8s::soroban::{
    count_file_name, eviction_score, next_count, parse_count, plan_l2_eviction, sanitise_key, EvictionCandidate,
    EvictionPolicy, SorobanCacheConfig,
};

#[test]
fn default_poll_interval_is_reasonable() {
    assert!(DEFAULT_POLL_INTERVAL_SECS >= 60, "poll interval should be at least 60s");
    assert!(DEFAULT_POLL_INTERVAL_SECS <= 3600, "poll interval should be at most 1h");
}

#[test]
fn pvc_outcome_events() {
    assert_eq!(outcome_event(ExpansionOutcome::Expanded { new_size_gi: 40 }), OutcomeEvent::Expanded { new_size_gi: 40 });
    assert_eq!(outcome_event(ExpansionOutcome::QuotaExceeded), OutcomeEvent::Blocked(BlockReason::StorageQuotaExceeded));
    assert_eq!(outcome_event(ExpansionOutcome::TooSoon), OutcomeEvent::Silent);
    let e = expansion_event("validator-1", 40, 1_700_000_000);
    assert_eq!(e.name, "pvc-expanded-validator-1-1700000000");
    assert_eq!(e.message, "PVC for validator-1 automatically expanded to 40Gi by the disk autoscaler.");
    let b = blocked_event("validator-1", BlockReason::MaxExpansionsReached, 5);
    assert_eq!(b.reason, "MaxExpansionsReached");
    assert_eq!(b.message, "PVC auto-expansion blocked for validator-1: MaxExpansionsReached. Manual intervention may be required.");
}

#[test]
fn test_default_config() {
    let config = SnapshotIntegrityConfig::default();
    assert!(!config.enabled);
    assert_eq!(config.schedule, "0 3 * * *");
    assert_eq!(config.snapshots_per_run, 3);
    assert_eq!(config.timeout_minutes, 120);
    assert_eq!(config.min_ledgers_for_consensus, 10);
}

#[test]
fn test_integrity_status() {
    let pass = IntegrityStatus::Pass;
    let fail = IntegrityStatus::Fail;
    assert_ne!(pass, fail);
}

#[test]
fn snapshot_selection_and_judgement() {
    let keys = vec!["a.tar.gz".to_string(), "b.txt".to_string(), "c.sql.gz".to_string(), "d.gz".to_string()];
    assert_eq!(snapshot_keys(&keys), vec!["a.tar.gz", "c.sql.gz"]);
    let ok = IntegrityCheck { name: "x".to_string(), passed: true, message: String::new(), duration_ms: 0 };
    assert_eq!(report_status(&[ok.clone()]), IntegrityStatus::Pass);
    assert_eq!(report_status(&[ok, validator_health_check(false)]), IntegrityStatus::Fail);
    assert_eq!(temp_namespace_name(42), "verify-snap-42");
    let p = ConsensusProgress { ledgers_verified: 0, last_ledger_hash: String::new() };
    let (p, done) = consensus_poll(p, Some((5, "h5".to_string())), 10);
    assert!(!done);
    let (p, done) = consensus_poll(p, Some((4, "h4".to_string())), 10);
    assert!(!done);
    assert_eq!(p.ledgers_verified, 5);
    let (p, done) = consensus_poll(p, Some((10, "h10".to_string())), 10);
    assert!(done);
    assert_eq!(p.last_ledger_hash, "h10");
}

#[test]
fn sanitise_key_replaces_slashes() {
    assert_eq!(sanitise_key("contract/abc:123"), "contract_abc_123");
    assert_eq!(sanitise_key("simple-key"), "simple-key");
}

#[test]
fn default_config_values() {
    let cfg = SorobanCacheConfig::default();
    assert_eq!(cfg.l1_capacity, 1_024);
    assert_eq!(cfg.l2_max_bytes, 2 * 1024 * 1024 * 1024);
    assert_eq!(cfg.eviction_policy, EvictionPolicy::Lfu);
}

#[test]
fn soroban_counts_and_names() {
    assert_eq!(count_file_name("a/b"), "a_b.cnt");
    assert_eq!(parse_count(" 12\n"), Some(12));
    assert_eq!(parse_count("x"), None);
    assert_eq!(next_count(None), 1);
    assert_eq!(next_count(Some(4)), 5);
    assert_eq!(eviction_score(EvictionPolicy::Lfu, Some(3), Some(9)), 3);
    assert_eq!(eviction_score(EvictionPolicy::Lru, Some(3), Some(9)), u64::MAX - 9);
}

#[test]
fn lfu_eviction_plan_keeps_hot_entries() {
    let c = |n: &str, score: u64, size: u64| EvictionCandidate { name: n.to_string(), score, size };
    let cands = vec![c("hot", 4, 10), c("cold", 1, 10), c("warm", 1, 10)];
    assert!(plan_l2_eviction(10, 10, 20, &cands).is_empty());
    assert_eq!(plan_l2_eviction(20, 10, 20, &cands), vec!["cold"]);
    assert_eq!(plan_l2_eviction(20, 15, 20, &cands), vec!["cold", "warm"]);
    assert_eq!(plan_l2_eviction(30, 100, 20, &cands), vec!["cold", "warm", "hot"]);
}

fn timeline() -> ProtocolUpgradeTimeline {
    ProtocolUpgradeTimeline {
        steps: vec![
            ProtocolUpgradeStep { protocol_version: 21, activate_at_unix: 1_700_000_000, config_ref: "main@sha256:aaa".to_string() },
            ProtocolUpgradeStep { protocol_version: 22, activate_at_unix: 1_800_000_000, config_ref: "main@sha256:bbb".to_string() },
        ],
    }
}

#[test]
fn picks_next_due_protocol_step() {
    let controller = GitOpsUpgradeController::default();
    let step = controller.next_due_step(&timeline(), 20, 1_750_000_000).expect("expected due step");
    assert_eq!(step.protocol_version, 21);
}

#[test]
fn skips_future_steps() {
    let controller = GitOpsUpgradeController::default();
    let step = controller.next_due_step(&timeline(), 21, 1_750_000_000);
    assert!(step.is_none());
}

#[test]
fn emits_argocd_annotations() {
    let controller = GitOpsUpgradeController::new(GitOpsEngine::ArgoCd, 120);
    let step = ProtocolUpgradeStep { protocol_version: 21, activate_at_unix: 1_700_000_000, config_ref: "main@sha256:aaa".to_string() };
    let ann = controller.build_sync_annotations("validator-1", &step);
    let get = |k: &str| ann.iter().find(|(key, _)| key == k).map(|(_, v)| v.clone());
    assert_eq!(get("stellar.org/protocol-target"), Some("21".to_string()));
    assert_eq!(get("argocd.argoproj.io/sync-wave"), Some("21".to_string()));
    assert_eq!(get("stellar.org/upgrade-sync-timeout-seconds"), Some("120".to_string()));
    assert_eq!(get("stellar.org/upgrade-node"), Some("validator-1".to_string()));
}

#[test]
fn flux_annotations_in_key_order() {
    let controller = GitOpsUpgradeController::new(GitOpsEngine::Flux, 300);
    let step = ProtocolUpgradeStep { protocol_version: 22, activate_at_unix: -5, config_ref: "r".to_string() };
    let ann = controller.build_sync_annotations("n", &step);
    let keys: Vec<&str> = ann.iter().map(|(k, _)| k.as_str()).collect();
    let mut sorted = keys.clone();
    sorted.sort();
    assert_eq!(keys, sorted);
    assert_eq!(ann[1], ("reconcile.fluxcd.io/requestedAt".to_string(), "-5".to_string()));
    assert_eq!(ann[4], ("stellar.org/upgrade-managed-by".to_string(), "flux".to_string()));
}

#[test]
fn lowest_due_version_wins_first_on_tie() {
    let t = ProtocolUpgradeTimeline {
        steps: vec![
            ProtocolUpgradeStep { protocol_version: 23, activate_at_unix: 0, config_ref: "x".to_string() },
            ProtocolUpgradeStep { protocol_version: 22, activate_at_unix: 0, config_ref: "first".to_string() },
            ProtocolUpgradeStep { protocol_version: 22, activate_at_unix: 0, config_ref: "second".to_string() },
        ],
    };
    let step = GitOpsUpgradeController::default().next_due_step(&t, 20, 10).unwrap();
    assert_eq!(step.config_ref, "first");
}

#[test]
fn audit_entry_helpers() {
    let e = AuditEntry::new(AdminAction::NodeCreate, "ci-bot", "validator-1", "stellar-system", Some("created"));
    assert!(e.success);
    assert_eq!(e.id.len(), 32);
    let enc = encrypt_audit_entry(e.clone(), "kms://key");
    assert_eq!(enc.details.as_deref(), Some("ENC[kms://key]:created"));
    assert_eq!(enc.actor, "ci-bot");
    let none = AuditEntry::new(AdminAction::NodeDelete, "a", "r", "n", None);
    assert!(encrypt_audit_entry(none, "k").details.is_none());
    assert_eq!(s3_object_key("audit-logs/", "2026-01-02", "ns", "abc"), "audit-logs/2026-01-02/ns/abc.json");
    assert_eq!(default_prefix(), "audit-logs/");
    assert_eq!(S3AuditSinkConfig::for_bucket("b").prefix, "audit-logs/");
    assert_eq!(content_md5(b"hello", true).as_deref(), Some("XUFAKrxLKna5cZ2REBfFkg=="));
    assert!(content_md5(b"hello", false).is_none());
    let sink = ExternalAggregatorAuditSink::new("http://agg".to_string(), Some("t0k".to_string()));
    assert_eq!(sink.authorization_header().as_deref(), Some("Bearer t0k"));
    let f = FileAuditSink::new("/var/log/audit.jsonl".to_string(), 100, 7);
    assert_eq!((f.path(), f.max_size_mb(), f.max_age_days()), ("/var/log/audit.jsonl", 100, 7));
    assert_eq!(AdminAction::Other("ml".to_string()).label(), "Other(\"ml\")");
}
