use ed25519_dalek::{Signature, VerifyingKey};
use sha2::{Digest, Sha256};
use stellar_k8s::audit::{AdminAction, AuditEntry};
use stellar_k8s::audit::entry_object_key;
use stellar_k8s::compliance::{entry_report_line, hex_encode, less_than, report_line, sign_payload, summarise};

fn sample_entries() -> Vec<AuditEntry> {
    vec![
        AuditEntry::new(AdminAction::NodeCreate, "ci-bot", "validator-1", "stellar-system", Some("created via CI")),
        {
            let mut e = AuditEntry::new(AdminAction::NodeDelete, "admin", "validator-2", "stellar-system", None);
            e.success = false;
            e.error = Some("permission denied".into());
            e
        },
        AuditEntry::new(
            AdminAction::ConfigUpdate,
            "operator",
            "stellar-operator-config",
            "stellar-system",
            Some(r#"{"enable_dr":"true"}"#),
        ),
    ]
}

#[test]
fn summarise_counts_correctly() {
    let entries = sample_entries();
    let s = summarise(&entries);
    assert_eq!(s.total_actions, 3);
    assert_eq!(s.successful_actions, 2);
    assert_eq!(s.failed_actions, 1);
    assert!(s.unique_actors.contains(&"ci-bot".to_string()));
    assert!(s.unique_actors.contains(&"admin".to_string()));
    assert!(s.unique_actors.contains(&"operator".to_string()));
}

#[test]
fn summarise_empty() {
    let s = summarise(&[]);
    assert_eq!(s.total_actions, 0);
    assert_eq!(s.failed_actions, 0);
    assert!(s.unique_actors.is_empty());
}

#[test]
fn summary_is_sorted_and_counted() {
    let mut entries = sample_entries();
    entries.push(AuditEntry::new(AdminAction::NodeCreate, "admin", "validator-3", "stellar-system", None));
    entries.push(AuditEntry::new(AdminAction::Other("x\"y".to_string()), "zed", "r", "ns", None));
    let s = summarise(&entries);
    assert_eq!(s.unique_actors, vec!["admin", "ci-bot", "operator", "zed"]);
    assert_eq!(
        s.action_counts,
        vec![
            ("ConfigUpdate".to_string(), 1),
            ("NodeCreate".to_string(), 2),
            ("NodeDelete".to_string(), 1),
            ("Other(\"x\\\"y\")".to_string(), 1),
        ]
    );
    assert_eq!(s.successful_actions + s.failed_actions, s.total_actions);
}

#[test]
fn string_order_matches_std() {
    let words = ["", "a", "ab", "b", "B", "é", "aa"];
    for x in words {
        for y in words {
            assert_eq!(less_than(x, y), x < y, "{x} < {y}");
        }
    }
}

#[test]
fn signature_is_hex_and_verifiable() {
    let payload = b"{\"entries\":[]}";
    let sig = sign_payload(payload);
    assert_eq!(sig.sha256, hex_encode(&Sha256::digest(payload)));
    assert_eq!(sig.sha256.len(), 64);
    let pk: [u8; 32] = hex::decode(&sig.public_key).unwrap().try_into().unwrap();
    let s: [u8; 64] = hex::decode(&sig.signature).unwrap().try_into().unwrap();
    let key = VerifyingKey::from_bytes(&pk).unwrap();
    let digest = hex::decode(&sig.sha256).unwrap();
    key.verify_strict(&digest, &Signature::from_bytes(&s)).unwrap();
    let tampered = Sha256::digest(b"{\"entries\":[1]}");
    assert!(key.verify_strict(tampered.as_slice(), &Signature::from_bytes(&s)).is_err());
}

#[test]
fn hex_is_lowercase_two_digits_per_byte() {
    assert_eq!(hex_encode(&[0, 1, 0xab, 0xff]), "0001abff");
}

#[test]
fn report_line_format() {
    let mut e = AuditEntry::new(AdminAction::NodeDelete, "admin", "validator-2", "stellar-system", None);
    e.success = false;
    assert_eq!(
        report_line(&e, "2026-01-01T00:00:00Z"),
        "[FAIL] 2026-01-01T00:00:00Z | NodeDelete | stellar-system/validator-2 | admin"
    );
}

#[test]
fn entry_time_is_written_in_utc() {
    let mut e = AuditEntry::new(AdminAction::NodeUpdate, "admin", "validator-1", "stellar-system", None);
    e.timestamp_ms = 1_700_000_000_000;
    e.id = "abc".to_string();
    assert_eq!(
        entry_report_line(&e).unwrap(),
        "[OK] 2023-11-14T22:13:20Z | NodeUpdate | stellar-system/validator-1 | admin"
    );
    assert_eq!(
        entry_object_key("audit-logs/", &e).unwrap(),
        "audit-logs/2023-11-14/stellar-system/abc.json"
    );
    e.timestamp_ms = i64::MAX;
    assert_eq!(entry_report_line(&e), None);
    assert_eq!(entry_object_key("audit-logs/", &e), None);
}
