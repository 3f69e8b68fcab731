use luther_workflow::digest::{hex_string, sha256_hex};
use luther_workflow::persistence::effect_intents::{
    compute_effect_key, plan_reconcile, EffectIntent, EffectKind, EffectPreparation, ObservedState,
    ReconcileVerdict,
};
use luther_workflow::persistence::launch_provenance::{
    canonicalize_variables, compute_config_digest, compute_provenance_digest, compute_workflow_digest, decode_config_root,
    encode_config_root, verify_provenance, LaunchProvenance, LaunchProvenanceError, LegacyAllowed,
    MigrationSource, ProvenanceVerification, LAUNCH_PROVENANCE_SCHEMA_VERSION,
};
use luther_workflow::persistence::recovery_operations::{
    adopt_outcome, compute_intent_digest, compute_logical_request_key, compute_operation_id,
    AdoptOutcome, OperationStatus,
};
use std::collections::HashMap;

/// A canonical serialization of the sample workflow type (keys sorted).
fn sample_workflow_type() -> String {
    r#"{"guards":{"max_retries":2,"require_approval":false,"timeout_seconds":60},"steps":[{"consumes":null,"description":"first step","parameters":{"key":"value"},"produces":["out1"],"recovery_policy":null,"step_id":"step1","step_type":"noop","terminal":false}],"transitions":[{"condition":"success","from":"step1","max_iterations":3,"to":"step2"}],"workflow_type_id":"test-workflow"}"#
        .to_string()
}

/// The serialization of a config with its variables in the library's
/// canonical order, whatever order the map hands them out in.
fn canonical_config(config_id: &str, variables: &HashMap<String, String>) -> String {
    let listed: Vec<(String, String)> = variables.iter().map(|(k, v)| (k.clone(), v.clone())).collect();
    let sorted = canonicalize_variables(&listed);
    let mut vars = String::new();
    for (i, (k, v)) in sorted.iter().enumerate() {
        if i > 0 {
            vars.push(',');
        }
        vars.push_str(&format!("\"{k}\":\"{v}\""));
    }
    format!(
        "{{\"config_id\":\"{config_id}\",\"variables\":{{{vars}}},\"workflow_type_id\":\"test-workflow\"}}"
    )
}

fn sample_config() -> String {
    let mut variables = HashMap::new();
    variables.insert("target_repo".to_string(), "owner/repo".to_string());
    canonical_config("test-config", &variables)
}

const ROOT: &[u8] = b"/home/user/project/config";

fn sample_provenance() -> LaunchProvenance {
    LaunchProvenance::from_resolved(
        sample_workflow_type().as_bytes(),
        sample_config().as_bytes(),
        b"config",
        Ok(ROOT.to_vec()),
    )
    .expect("canonical root given")
}

#[test]
fn digest_is_deterministic_for_same_workflow() {
    let workflow = sample_workflow_type();
    let digest1 = compute_workflow_digest(workflow.as_bytes());
    let digest2 = compute_workflow_digest(workflow.as_bytes());
    assert_eq!(digest1, digest2);
    assert_eq!(digest1.len(), 64);
    assert!(digest1.chars().all(|c| c.is_ascii_hexdigit()));
}

#[test]
fn digest_is_deterministic_for_same_config() {
    let config = sample_config();
    let digest1 = compute_config_digest(config.as_bytes());
    let digest2 = compute_config_digest(config.as_bytes());
    assert_eq!(digest1, digest2);
    assert_eq!(digest1.len(), 64);
}

#[test]
fn digest_changes_when_workflow_changes() {
    let workflow = sample_workflow_type();
    let before = compute_workflow_digest(workflow.as_bytes());
    let changed_workflow = workflow.replace("\"test-workflow\"", "\"changed-workflow\"");
    let changed = compute_workflow_digest(changed_workflow.as_bytes());
    assert_ne!(before, changed);
}

#[test]
fn digest_changes_when_config_changes() {
    let mut variables = HashMap::new();
    variables.insert("target_repo".to_string(), "owner/repo".to_string());
    let before = compute_config_digest(canonical_config("test-config", &variables).as_bytes());
    let changed = compute_config_digest(canonical_config("changed-config", &variables).as_bytes());
    assert_ne!(before, changed);
}

#[test]
fn digest_independent_of_variable_map_insertion_order() {
    let mut vars_a = HashMap::new();
    let mut vars_b = HashMap::new();
    vars_a.insert("z".to_string(), "1".to_string());
    vars_a.insert("a".to_string(), "2".to_string());
    vars_b.insert("a".to_string(), "2".to_string());
    vars_b.insert("z".to_string(), "1".to_string());
    assert_eq!(
        compute_config_digest(canonical_config("test-config", &vars_a).as_bytes()),
        compute_config_digest(canonical_config("test-config", &vars_b).as_bytes())
    );
}

#[test]
fn sha256_digest_known_value() {
    assert_eq!(
        sha256_hex(b"abc"),
        "ba7816bf8f01cfea414140de5dae2223b00361a396177a9cb410ff61f20015ad"
    );
    assert_eq!(
        compute_workflow_digest(b""),
        "e3b0c44298fc1c149afbf4c8996fb92427ae41e4649b934ca495991b7852b855"
    );
    assert_eq!(hex_string(&[0x00, 0xab, 0x7f]), "00ab7f");
}

#[test]
fn from_resolved_records_current_schema_and_root() {
    let provenance = sample_provenance();
    assert!(provenance.schema_is_current());
    assert_eq!(provenance.schema_version, LAUNCH_PROVENANCE_SCHEMA_VERSION);
    assert_eq!(decode_config_root(&provenance.canonical_config_root).expect("decode root"), ROOT.to_vec());
    assert_eq!(provenance.workflow_digest, compute_workflow_digest(sample_workflow_type().as_bytes()));
    assert_eq!(provenance.config_digest, compute_config_digest(sample_config().as_bytes()));
    assert!(!provenance.is_migrated());
}

#[test]
fn from_resolved_errors_when_config_root_is_missing() {
    let workflow = sample_workflow_type();
    let config = sample_config();
    let root = b"/this/path/does/not/exist/issue158-provenance";
    let error = LaunchProvenance::from_resolved(
        workflow.as_bytes(),
        config.as_bytes(),
        root,
        Err("No such file or directory (os error 2)".to_string()),
    )
    .expect_err("missing config root must be a Canonicalize error");
    assert!(
        matches!(error, LaunchProvenanceError::Canonicalize { .. }),
        "expected Canonicalize, got {error:?}"
    );
    match error {
        LaunchProvenanceError::Canonicalize { config_root, io_error } => {
            assert_eq!(config_root, root.to_vec());
            assert_eq!(io_error, "No such file or directory (os error 2)");
        }
        other => panic!("unexpected {other:?}"),
    }
}

#[test]
fn verify_matches_when_recomputed_identically() {
    let provenance = sample_provenance();
    let result = verify_provenance(
        &Some(provenance),
        sample_workflow_type().as_bytes(),
        sample_config().as_bytes(),
        ROOT,
        LegacyAllowed::Denied,
    );
    assert_eq!(result, ProvenanceVerification::Match);
}

#[test]
fn verify_mismatches_on_workflow_change() {
    let provenance = sample_provenance();
    let changed_workflow = sample_workflow_type().replace("\"test-workflow\"", "\"different\"");
    let result = verify_provenance(
        &Some(provenance),
        changed_workflow.as_bytes(),
        sample_config().as_bytes(),
        ROOT,
        LegacyAllowed::Denied,
    );
    assert!(matches!(result, ProvenanceVerification::Mismatch(_)));
}

#[test]
fn verify_mismatches_on_config_root_change() {
    let provenance = sample_provenance();
    let result = verify_provenance(
        &Some(provenance),
        sample_workflow_type().as_bytes(),
        sample_config().as_bytes(),
        b"/different/config",
        LegacyAllowed::Denied,
    );
    assert!(matches!(result, ProvenanceVerification::Mismatch(_)));
}

#[test]
fn verify_mismatches_on_schema_version_change() {
    let mut provenance = sample_provenance();
    provenance.schema_version = 999;
    let result = verify_provenance(
        &Some(provenance),
        sample_workflow_type().as_bytes(),
        sample_config().as_bytes(),
        ROOT,
        LegacyAllowed::Denied,
    );
    match result {
        ProvenanceVerification::Mismatch(reason) => {
            assert!(reason.contains("schema version"), "reason: {reason}");
        }
        other => panic!("expected Mismatch, got {other:?}"),
    }
}

#[test]
fn verify_legacy_allowed_admits_absent_provenance_with_warning() {
    let result = verify_provenance(
        &None,
        sample_workflow_type().as_bytes(),
        sample_config().as_bytes(),
        ROOT,
        LegacyAllowed::Allowed,
    );
    match result {
        ProvenanceVerification::Legacy(warning) => {
            assert!(warning.contains("legacy"), "warning: {warning}");
        }
        other => panic!("expected Legacy, got {other:?}"),
    }
}

#[test]
fn verify_legacy_denied_refuses_absent_provenance() {
    let result = verify_provenance(
        &None,
        sample_workflow_type().as_bytes(),
        sample_config().as_bytes(),
        ROOT,
        LegacyAllowed::Denied,
    );
    assert!(matches!(result, ProvenanceVerification::Mismatch(_)));
}

#[test]
fn verify_migrated_row_matches_on_root_alone() {
    let migrated = LaunchProvenance::migrated(
        MigrationSource::LegacyOwnershipMigration,
        encode_config_root(ROOT),
    );
    assert!(migrated.is_migrated());
    let result = verify_provenance(&Some(migrated), b"anything", b"else", ROOT, LegacyAllowed::Denied);
    assert_eq!(result, ProvenanceVerification::Match);
}

#[test]
fn legacy_allowed_default_is_denied() {
    assert_eq!(LegacyAllowed::default(), LegacyAllowed::Denied);
}

#[test]
fn config_root_round_trips_through_encoding() {
    let root = b"/some/config/root";
    let encoded = encode_config_root(root);
    let decoded = decode_config_root(&encoded).expect("valid encoding round-trips");
    assert_eq!(decoded, root.to_vec());
}

#[test]
fn decode_config_root_rejects_empty_encoding() {
    let error = decode_config_root("").expect_err("empty encoding must be rejected");
    assert!(
        matches!(error, LaunchProvenanceError::InvalidEncoding { reason, .. } if reason.contains("empty")),
        "expected InvalidEncoding(empty), got {error:?}"
    );
}

#[test]
fn decode_config_root_rejects_odd_length_hex() {
    let error = decode_config_root("abc").expect_err("odd-length encoding must be rejected");
    assert!(
        matches!(error, LaunchProvenanceError::InvalidEncoding { reason, .. } if reason.contains("odd length")),
        "expected InvalidEncoding(odd length), got {error:?}"
    );
}

#[test]
fn decode_config_root_rejects_non_hex_character() {
    let error = decode_config_root("2g").expect_err("non-hex character must be rejected");
    assert!(
        matches!(error, LaunchProvenanceError::InvalidEncoding { reason, .. } if reason.contains("non-hex")),
        "expected InvalidEncoding(non-hex), got {error:?}"
    );
}

#[test]
fn decode_config_root_accepts_uppercase_hex() {
    let root = b"/A";
    let encoded = encode_config_root(root);
    assert_eq!(encoded, "2f41");
    // encode produces lowercase; decode must accept both cases.
    let upper = encoded.to_uppercase();
    let decoded = decode_config_root(&upper).expect("uppercase hex must decode");
    assert_eq!(decoded, root.to_vec());
}

#[test]
fn provenance_digest_tracks_each_field() {
    let p = sample_provenance();
    let d = compute_provenance_digest(&p);
    assert_eq!(d.len(), 64);
    assert_eq!(d, compute_provenance_digest(&p.clone()));
    let mut q = p.clone();
    q.config_digest = "0".repeat(64);
    assert_ne!(d, compute_provenance_digest(&q));
    let mut m = p.clone();
    m.migration_source = Some(MigrationSource::LegacyOwnershipMigration);
    assert_ne!(d, compute_provenance_digest(&m));
}

#[test]
fn recovery_operation_identity() {
    let a = compute_operation_id("run", "step", "env", Some(1), "retry");
    let b = compute_operation_id("run", "step", "env", Some(1), "retry");
    assert_eq!(a, b);
    assert_eq!(a.len(), 64);
    // Framing keeps field boundaries apart.
    assert_ne!(
        compute_operation_id("ru", "nstep", "env", Some(1), "retry"),
        compute_operation_id("run", "step", "env", Some(1), "retry")
    );
    assert_ne!(a, compute_operation_id("run", "step", "env", None, "retry"));
    // A fresh run and source attempt 0 are different bindings.
    assert_ne!(
        compute_operation_id("run", "step", "env", None, "retry"),
        compute_operation_id("run", "step", "env", Some(0), "retry")
    );
    assert_ne!(
        compute_logical_request_key("run", None, "retry"),
        compute_logical_request_key("run", Some(0), "retry")
    );
    assert_eq!(compute_logical_request_key("run", None, "retry").len(), 64);
    assert_ne!(
        compute_logical_request_key("run", Some(1), "retry"),
        compute_logical_request_key("run", Some(2), "retry")
    );
    assert_eq!(
        compute_intent_digest("abc"),
        "ba7816bf8f01cfea414140de5dae2223b00361a396177a9cb410ff61f20015ad"
    );
    assert_eq!(adopt_outcome(1), AdoptOutcome::Adopted);
    assert_eq!(adopt_outcome(0), AdoptOutcome::StillOwned);
    assert_eq!(adopt_outcome(2), AdoptOutcome::StillOwned);
    assert_eq!(OperationStatus::parse_str("refused"), Some(OperationStatus::Refused));
    assert_eq!(OperationStatus::Conflict.as_str(), "conflict");
}

fn intent(kind: EffectKind, status: &str) -> EffectIntent {
    EffectIntent {
        effect_key: "k".to_string(),
        operation_id: "op".to_string(),
        attempt_id: 1,
        sequence: 0,
        effect_kind: kind,
        canonical_payload: b"payload".to_vec(),
        payload_digest: sha256_hex(b"payload"),
        payload_version: 1,
        expected_target: Some("new".to_string()),
        expected_predecessor: Some("old".to_string()),
        observed_result: Some("new".to_string()),
        status: status.to_string(),
    }
}

#[test]
fn effect_keys_and_bindings() {
    let prep = EffectPreparation {
        operation_id: "op",
        attempt_id: 1,
        sequence: 0,
        kind: EffectKind::Push,
        payload: b"payload",
        expected_target: Some("new"),
        expected_predecessor: Some("old"),
    };
    assert_eq!(prep.effect_key(), compute_effect_key("op", 1, 0, "push"));
    assert_ne!(prep.effect_key(), compute_effect_key("op", 1, 1, "push"));
    assert_eq!(prep.payload_digest(), sha256_hex(b"payload"));
    assert!(prep.binding_matches(&intent(EffectKind::Push, "prepared")));
    let mut other = intent(EffectKind::Push, "prepared");
    other.expected_target = Some("elsewhere".to_string());
    assert!(!prep.binding_matches(&other));
    assert_eq!(EffectKind::parse_str("open_pr"), Some(EffectKind::OpenPr));
    assert_eq!(EffectKind::Merge.as_str(), "merge");
}

#[test]
fn reconcile_decisions() {
    let observed = |head: Option<&str>| ObservedState {
        head_sha: head.map(str::to_string),
        remote_ref_sha: head.map(str::to_string),
        matching_pr_number: None,
    };
    let done = plan_reconcile(&intent(EffectKind::Commit, "completed"), &observed(None), None).unwrap();
    assert_eq!(done.verdict, ReconcileVerdict::Completed { result: Some("new".to_string()) });
    assert!(done.finalize.is_none());

    let landed = plan_reconcile(&intent(EffectKind::Commit, "prepared"), &observed(Some("new")), None).unwrap();
    assert_eq!(landed.verdict, ReconcileVerdict::Completed { result: Some("new".to_string()) });
    assert_eq!(landed.finalize.unwrap().status, "completed");

    let again = plan_reconcile(&intent(EffectKind::Push, "prepared"), &observed(Some("old")), None).unwrap();
    assert_eq!(again.verdict, ReconcileVerdict::NeedsReissue);

    let diverged = plan_reconcile(&intent(EffectKind::Push, "prepared"), &observed(Some("x")), None).unwrap();
    assert_eq!(diverged.verdict, ReconcileVerdict::Conflict { detail: "remote ref diverged".to_string() });
    assert_eq!(diverged.finalize.unwrap().status, "conflict");

    let pr = ObservedState { head_sha: None, remote_ref_sha: None, matching_pr_number: Some(42) };
    let opened = plan_reconcile(&intent(EffectKind::OpenPr, "prepared"), &pr, None).unwrap();
    assert_eq!(opened.verdict, ReconcileVerdict::Completed { result: Some("42".to_string()) });

    let merged =
        plan_reconcile(&intent(EffectKind::Merge, "prepared"), &observed(None), Some("abc".to_string())).unwrap();
    assert_eq!(merged.verdict, ReconcileVerdict::Completed { result: Some("abc".to_string()) });

    let err = plan_reconcile(&intent(EffectKind::Merge, "weird"), &observed(None), None).unwrap_err();
    assert_eq!(err, "unknown effect intent status 'weird'");
}

#[test]
fn canonical_variable_order_is_by_name() {
    let pair = |k: &str, v: &str| (k.to_string(), v.to_string());
    let a = vec![pair("z", "1"), pair("a", "2"), pair("ab", "3"), pair("B", "4"), pair("\u{e9}", "5")];
    let b = vec![pair("ab", "3"), pair("\u{e9}", "5"), pair("B", "4"), pair("z", "1"), pair("a", "2")];
    let expected = vec![pair("B", "4"), pair("a", "2"), pair("ab", "3"), pair("z", "1"), pair("\u{e9}", "5")];
    assert_eq!(canonicalize_variables(&a), expected);
    assert_eq!(canonicalize_variables(&b), expected);
    // The same order as `str`'s own ordering.
    let mut by_std = a.clone();
    by_std.sort();
    assert_eq!(canonicalize_variables(&a), by_std);
    // Equal names keep their order.
    let dup = vec![pair("k", "first"), pair("a", "x"), pair("k", "second")];
    assert_eq!(canonicalize_variables(&dup), vec![pair("a", "x"), pair("k", "first"), pair("k", "second")]);
    assert!(canonicalize_variables(&[]).is_empty());
}
