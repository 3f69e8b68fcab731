use luther_workflow::monitor::heartbeat::{Heartbeat, MonitorState};
use luther_workflow::persistence::artifacts::ArtifactRecord;
use luther_workflow::persistence::checkpoint::{Checkpoint, StateSnapshot};
use luther_workflow::persistence::leases::{
    stale_cutoff, LeaseStatus, MARK_STALE_ACTIVE_LEASES_SQL, MARK_STALE_READY_TO_RESUME_LEASES_SQL,
};
use luther_workflow::persistence::effect_intents::EffectKind;
use luther_workflow::persistence::legacy_migration_state::MigrationStatus;
use luther_workflow::persistence::rows::{
    checkpoint_from_columns, effect_intent_from_columns, event_from_columns, lease_from_columns,
    migration_row_from_columns,
    run_metadata_from_columns, RowError, RunColumns,
};
use luther_workflow::persistence::run_metadata::{
    deserialize_pid_list, deserialize_string_list, serialize_pid_list, serialize_string_list,
    RunMetadata, RunStatus, RunStatusParseError,
};
use luther_workflow::reports::heartbeat_status;
use luther_workflow::time::Timestamp;
use std::collections::HashMap;

fn columns(status: &str, created_at: &str) -> RunColumns {
    RunColumns {
        run_id: "run-7".to_string(),
        workflow_type_id: "wf".to_string(),
        config_id: "cfg".to_string(),
        status: status.to_string(),
        created_at: created_at.to_string(),
        updated_at: None,
        current_step: Some("build".to_string()),
        previous_step: None,
        previous_outcome: None,
        next_step_candidates: Some("[\"test\",\"deploy\"]".to_string()),
        log_path: None,
        artifact_root: None,
        workspace_path: None,
        repository: Some("org/repo".to_string()),
        issue_number: Some(12),
        pr_number: None,
        head_sha: None,
        process_pid: Some(4242),
        child_pids: Some("[7,8]".to_string()),
        failure_cleanup: Ok(None),
    }
}

#[test]
fn run_row_reads_back() {
    let mut cols = columns("running", "2024-01-02T03:04:05Z");
    cols.updated_at = Some("2024-01-02T03:04:06.5+00:00".to_string());
    let md = run_metadata_from_columns(cols).unwrap();
    assert_eq!(md.run_id, "run-7");
    assert_eq!(md.status, RunStatus::Running);
    assert_eq!(md.created_at, Timestamp { secs: 1_704_164_645, nanos: 0 });
    assert_eq!(md.updated_at, Some(Timestamp { secs: 1_704_164_646, nanos: 500_000_000 }));
    assert_eq!(md.current_step.as_deref(), Some("build"));
    assert_eq!(md.next_step_candidates, vec!["test".to_string(), "deploy".to_string()]);
    assert_eq!(md.repository.as_deref(), Some("org/repo"));
    assert_eq!(md.issue_number, Some(12));
    assert_eq!(md.process_pid, Some(4242));
    assert_eq!(md.child_pids, vec![7, 8]);
    assert!(md.failure_cleanup.is_none());
}

#[test]
fn run_row_with_unreadable_update_time_reads_none() {
    let mut cols = columns("queued", "2024-01-02T03:04:05Z");
    cols.updated_at = Some("yesterday".to_string());
    cols.next_step_candidates = Some("not json".to_string());
    cols.process_pid = Some(-1);
    let md = run_metadata_from_columns(cols).unwrap();
    assert_eq!(md.updated_at, None);
    assert!(md.next_step_candidates.is_empty());
    assert_eq!(md.process_pid, Some(u32::MAX));
}

#[test]
fn run_row_with_unknown_status_is_refused() {
    let err = run_metadata_from_columns(columns("sleeping", "yesterday")).unwrap_err();
    assert_eq!(err, RowError::InvalidStatus(RunStatusParseError("sleeping".to_string())));
    assert_eq!(err.column(), 3);
    assert_eq!(err.to_string(), "Unknown run status: sleeping");
}

#[test]
fn run_row_with_bad_creation_time_is_refused() {
    let err = run_metadata_from_columns(columns("running", "yesterday")).unwrap_err();
    assert_eq!(err, RowError::InvalidDatetime);
    assert_eq!(err.column(), 4);
    assert_eq!(err.to_string(), "Invalid datetime");
}

#[test]
fn run_row_with_bad_cleanup_record_is_refused() {
    let mut cols = columns("failed", "2024-01-02T03:04:05Z");
    cols.failure_cleanup = Err("missing field `failed_step`".to_string());
    let err = run_metadata_from_columns(cols).unwrap_err();
    assert_eq!(err.column(), 19);
    assert_eq!(err.to_string(), "missing field `failed_step`");
}

#[test]
fn checkpoint_row_reads_back() {
    let mut edges = HashMap::new();
    edges.insert("a:b".to_string(), 2u32);
    let cp = checkpoint_from_columns(
        "run-1".to_string(),
        "build".to_string(),
        3,
        1,
        edges,
        HashMap::new(),
        "completed".to_string(),
        "2024-01-02T03:04:05Z",
    )
    .unwrap();
    assert_eq!(cp.run_id, "run-1");
    assert_eq!(cp.step_id, "build");
    assert_eq!(cp.state_snapshot.retry_count, 3);
    assert_eq!(cp.state_snapshot.loop_count, 1);
    assert_eq!(cp.state_snapshot.edge_loop_counts.get("a:b"), Some(&2));
    assert_eq!(cp.state_snapshot.status, "completed");
    assert_eq!(cp.timestamp, Timestamp { secs: 1_704_164_645, nanos: 0 });
}

#[test]
fn checkpoint_row_with_bad_time_is_refused() {
    let err = checkpoint_from_columns(
        "run-1".to_string(),
        "build".to_string(),
        0,
        0,
        HashMap::new(),
        HashMap::new(),
        "completed".to_string(),
        "later",
    )
    .unwrap_err();
    assert_eq!(err, RowError::InvalidTimestamp { column: 6 });
    assert_eq!(err.to_string(), "Invalid timestamp format");
}

#[test]
fn event_row_reads_back_or_is_refused() {
    let ev = event_from_columns(
        "run-1".to_string(),
        "build".to_string(),
        "success".to_string(),
        "step_completed".to_string(),
        None,
        "1970-01-01T00:01:00Z",
    )
    .unwrap();
    assert_eq!(ev.timestamp, Timestamp { secs: 60, nanos: 0 });
    assert_eq!(ev.event_type, "step_completed");
    let err = event_from_columns(
        "run-1".to_string(),
        "build".to_string(),
        "success".to_string(),
        "step_completed".to_string(),
        None,
        "",
    )
    .unwrap_err();
    assert_eq!(err.column(), 5);
}

#[test]
fn lease_row_reads_back_with_fallbacks() {
    let lease = lease_from_columns(
        "lease-1".to_string(),
        "org/repo".to_string(),
        -1,
        "cfg".to_string(),
        None,
        "mystery",
        "2024-01-02T03:04:05+01:00",
        "garbage",
        "1970-01-01T00:00:10Z",
    );
    assert_eq!(lease.issue_number, u64::MAX);
    assert_eq!(lease.status, LeaseStatus::Pending);
    assert_eq!(lease.claimed_at, Timestamp { secs: 1_704_161_045, nanos: 0 });
    assert_eq!(lease.updated_at, Timestamp { secs: 0, nanos: 0 });
    assert_eq!(lease.heartbeat_at, Timestamp { secs: 10, nanos: 0 });
    let claimed = lease_from_columns(
        "lease-2".to_string(),
        "org/repo".to_string(),
        5,
        "cfg".to_string(),
        Some("run-1".to_string()),
        "claimed",
        "x",
        "x",
        "x",
    );
    assert_eq!(claimed.status, LeaseStatus::Claimed);
    assert_eq!(claimed.issue_number, 5);
}

#[test]
fn stamps_are_the_time_given() {
    let t = Timestamp { secs: 1_700_000_000, nanos: 250 };
    let later = Timestamp { secs: 1_700_000_100, nanos: 0 };
    assert_eq!(Heartbeat::new("i", t).timestamp, 1_700_000_000);
    let mut md = RunMetadata::new("r", "wf", "cfg", t);
    assert_eq!(md.created_at, t);
    assert_eq!(md.updated_at, None);
    md.mark_started(later);
    assert_eq!(md.updated_at, Some(later));
    md.add_child_pid(9, t);
    assert_eq!(md.updated_at, Some(t));
    let mut cp = Checkpoint::new("r", "s", t);
    assert_eq!(cp.timestamp, t);
    cp.mark_interrupted(later);
    assert_eq!(cp.timestamp, later);
    let snap = StateSnapshot::default();
    assert_eq!(Checkpoint::with_snapshot("r", "s", snap, later).timestamp, later);
    assert_eq!(ArtifactRecord::new("r", "/a", "log", "s", t).created_at, t);
}

#[test]
fn lists_with_escapes_round_trip() {
    let list = vec!["say \"hi\"".to_string(), "a\\b\n\t\u{1}".to_string(), "é".to_string()];
    let raw = serialize_string_list(&list);
    assert_eq!(raw, "[\"say \\\"hi\\\"\",\"a\\\\b\\n\\t\\u0001\",\"é\"]");
    assert_eq!(deserialize_string_list(Some(raw)), list);
    assert_eq!(serialize_string_list(&[]), "[]");
    let pids = vec![0u32, u32::MAX];
    assert_eq!(deserialize_pid_list(Some(serialize_pid_list(&pids))), pids);
}

#[test]
fn heartbeat_time_range_edges() {
    let edge = Heartbeat::new("i", Timestamp { secs: 8_210_266_876_799, nanos: 0 })
        .with_state(MonitorState::Running);
    let past = Heartbeat::new("i", Timestamp { secs: 8_210_266_876_800, nanos: 0 });
    let first = Heartbeat::new("i", Timestamp { secs: -8_334_601_228_800, nanos: 0 });
    let before = Heartbeat::new("i", Timestamp { secs: -8_334_601_228_801, nanos: 0 });
    let text = heartbeat_status(&vec![("a".to_string(), edge), ("b".to_string(), past)]);
    assert!(text.contains("Last heartbeat: +262142-12-31T23:59:59+00:00\n"));
    assert!(text.contains("Last heartbeat: unknown\n"));
    let text = heartbeat_status(&vec![("c".to_string(), first), ("d".to_string(), before)]);
    assert!(text.contains("Last heartbeat: -262143-01-01T00:00:00+00:00\n"));
    assert!(text.contains("Last heartbeat: unknown\n"));
}

#[test]
fn stale_cutoff_goes_back_by_the_timeout() {
    let now = Timestamp { secs: 1_000, nanos: 5 };
    assert_eq!(stale_cutoff(now, 300), Some(Timestamp { secs: 700, nanos: 5 }));
    assert_eq!(stale_cutoff(now, 0), Some(now));
    // The timeout is read as a signed count: all bits set is one second back
    // in the other direction.
    assert_eq!(stale_cutoff(now, u64::MAX), Some(Timestamp { secs: 1_001, nanos: 5 }));
    assert_eq!(stale_cutoff(now, 9_223_372_036_854_776), None);
    let first = Timestamp { secs: -8_334_601_228_800, nanos: 0 };
    assert_eq!(stale_cutoff(first, 0), Some(first));
    assert_eq!(stale_cutoff(first, 1), None);
}

#[test]
fn stale_sweeps_name_their_statuses() {
    assert!(MARK_STALE_ACTIVE_LEASES_SQL.contains("status IN ('claimed', 'running') AND heartbeat_at < ?2"));
    assert!(MARK_STALE_READY_TO_RESUME_LEASES_SQL.contains("status = 'ready_to_resume' AND updated_at < ?2"));
    assert!(MARK_STALE_READY_TO_RESUME_LEASES_SQL.starts_with("UPDATE issue_leases SET status = 'stale', updated_at = ?1"));
}

#[test]
fn migration_row_reads_back_or_is_refused() {
    let row = migration_row_from_columns(
        "run-1".to_string(),
        "/ws".to_string(),
        "1970-01-01T00:00:30Z",
        Some("not a time".to_string()),
        "pending",
    )
    .unwrap();
    assert_eq!(row.status, MigrationStatus::Pending);
    assert_eq!(row.intent_at, Timestamp { secs: 30, nanos: 0 });
    assert_eq!(row.completed_at, None);
    let done = migration_row_from_columns(
        "run-1".to_string(),
        "/ws".to_string(),
        "1970-01-01T00:00:30Z",
        Some("1970-01-01T00:01:00+00:00".to_string()),
        "completed",
    )
    .unwrap();
    assert_eq!(done.completed_at, Some(Timestamp { secs: 60, nanos: 0 }));
    let err = migration_row_from_columns("r".to_string(), "/ws".to_string(), "yesterday", None, "done").unwrap_err();
    assert_eq!(err, RowError::UnknownMigrationStatus("done".to_string()));
    assert_eq!(err.column(), 4);
    assert_eq!(err.to_string(), "unknown migration status 'done'");
    let err = migration_row_from_columns("r".to_string(), "/ws".to_string(), "yesterday", None, "pending").unwrap_err();
    let chrono_message = chrono::DateTime::parse_from_rfc3339("yesterday").unwrap_err().to_string();
    assert_eq!(err, RowError::InvalidIntentTime(chrono_message.clone()));
    assert_eq!(err.column(), 2);
    assert_eq!(err.to_string(), chrono_message);
}

#[test]
fn effect_intent_row_reads_back_or_is_refused() {
    let intent = effect_intent_from_columns(
        "key".to_string(),
        "op".to_string(),
        7,
        2,
        "open_pr",
        vec![1, 2, 3],
        "digest".to_string(),
        1,
        Some("main".to_string()),
        None,
        None,
        "prepared".to_string(),
    )
    .unwrap();
    assert_eq!(intent.effect_kind, EffectKind::OpenPr);
    assert_eq!(intent.payload_version, 1);
    assert_eq!(intent.canonical_payload, vec![1, 2, 3]);
    assert_eq!(intent.expected_target.as_deref(), Some("main"));
    let odd_version = effect_intent_from_columns(
        "key".to_string(),
        "op".to_string(),
        7,
        2,
        "merge",
        Vec::new(),
        "digest".to_string(),
        -5,
        None,
        None,
        None,
        "completed".to_string(),
    )
    .unwrap();
    assert_eq!(odd_version.payload_version, 0);
    let err = effect_intent_from_columns(
        "key".to_string(),
        "op".to_string(),
        7,
        2,
        "rebase",
        Vec::new(),
        "digest".to_string(),
        1,
        None,
        None,
        None,
        "prepared".to_string(),
    )
    .unwrap_err();
    assert_eq!(err, RowError::UnknownEffectKind("rebase".to_string()));
    assert_eq!(err.column(), 4);
    assert_eq!(err.to_string(), "unknown effect kind 'rebase'");
}
