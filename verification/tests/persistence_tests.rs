use luther_workflow::persistence::artifacts::{get_artifacts_dir, ArtifactRecord};
use luther_workflow::persistence::capsule_store::LaunchPersistenceError;
use luther_workflow::persistence::checkpoint::{
    checkpoint_before_step, checkpoint_for_step, is_resumable_checkpoint_status, Checkpoint,
    EventType, PersistenceError, StateSnapshot, CHECKPOINT_STATUS_INTERRUPTED,
    CHECKPOINT_STATUS_READY_TO_RESUME, CHECKPOINT_STATUS_WAITING,
};
use luther_workflow::persistence::leases::{
    claim_statement, claim_won, classify_conditional_update, issue_number_to_sql_i64,
    lease_status_or_pending, plan_conditional_update, sql_placeholders, timestamp_nanos_or_zero,
    ConditionalLeaseStatusOutcome, ConditionalUpdatePlan, IssueLease, LeaseStatus,
};
use luther_workflow::persistence::legacy_migration_state::{
    classify_guarded_completion, is_durably_completed, is_pending, GuardedCompletionOutcome,
    MigrationStateRow, MigrationStatus,
};
use luther_workflow::persistence::recovery_epoch::{cas_outcome, epoch_from_row, next_epoch_value, CasOutcome};
use luther_workflow::persistence::attempts::{verify_snapshot_digest, AttemptRow, SnapshotDigestMismatch};
use luther_workflow::persistence::run_metadata::{
    deserialize_pid_list, deserialize_string_list, serialize_pid_list, serialize_string_list,
    RunMetadata, RunStatus,
};
use luther_workflow::persistence::run_store::{
    classify_conditional_status, expected_status_update_statement, run_id_chunk_bounds,
    runs_by_ids_statement, sort_runs_newest_first, unique_run_ids, ConditionalStatusOutcome,
    CONDITIONAL_STATUS_UPDATE_SQL, RUN_SELECT_COLUMNS,
};
use luther_workflow::time::Timestamp;
use std::collections::HashMap;
use std::str::FromStr;

/// The wall clock now, as the library's timestamp.
fn persistence_now() -> Timestamp {
    let since = std::time::SystemTime::now().duration_since(std::time::UNIX_EPOCH).unwrap();
    Timestamp { secs: since.as_secs() as i64, nanos: since.subsec_nanos() }
}

#[test]
fn all_statuses_round_trip() {
    let statuses = [
        RunStatus::Initialized,
        RunStatus::Queued,
        RunStatus::Starting,
        RunStatus::Running,
        RunStatus::WaitingForChecks,
        RunStatus::WaitingExternal,
        RunStatus::ReadyToResume,
        RunStatus::Remediating,
        RunStatus::Blocked,
        RunStatus::Paused,
        RunStatus::Completed,
        RunStatus::Failed,
        RunStatus::Abandoned,
        RunStatus::Merged,
        RunStatus::Cancelled,
    ];
    for status in statuses {
        let s = status.to_string();
        let parsed = RunStatus::from_str(&s).expect("should parse");
        assert_eq!(parsed, status);
    }
}

#[test]
fn run_status_rejects_unknown_text() {
    let err = RunStatus::from_str("sleeping").unwrap_err();
    assert_eq!(err.0, "sleeping");
    assert_eq!(RunStatus::WaitingForChecks.as_str(), "waiting_for_checks");
}

#[test]
fn terminal_classification() {
    assert!(RunStatus::Completed.is_terminal());
    assert!(RunStatus::Failed.is_terminal());
    assert!(RunStatus::Abandoned.is_terminal());
    assert!(RunStatus::Merged.is_terminal());
    assert!(RunStatus::Cancelled.is_terminal());
    assert!(!RunStatus::Running.is_terminal());
    assert!(!RunStatus::Starting.is_terminal());
    assert!(!RunStatus::WaitingForChecks.is_terminal());
    assert!(!RunStatus::WaitingExternal.is_terminal());
    assert!(!RunStatus::ReadyToResume.is_terminal());
}

#[test]
fn resumable_classification() {
    assert!(RunStatus::WaitingForChecks.is_resumable());
    assert!(RunStatus::WaitingExternal.is_resumable());
    assert!(RunStatus::ReadyToResume.is_resumable());
    assert!(RunStatus::Paused.is_resumable());
    assert!(RunStatus::Blocked.is_resumable());
    // Terminal Failed is resumable only via explicit continuation.
    assert!(RunStatus::Failed.is_resumable());
    // Other terminal states are not resumable.
    assert!(!RunStatus::Completed.is_resumable());
    assert!(!RunStatus::Merged.is_resumable());
    assert!(!RunStatus::Abandoned.is_resumable());
    assert!(!RunStatus::Cancelled.is_resumable());
}

#[test]
fn reopen_flips_failed_run_to_running() {
    let mut md = RunMetadata::new("r", "wf", "cfg", persistence_now());
    md.mark_failed(persistence_now());
    md.set_previous_step_and_outcome("watch_pr_checks", "wait", persistence_now());
    assert_eq!(md.status, RunStatus::Failed);

    md.reopen(4242, persistence_now());
    assert_eq!(md.status, RunStatus::Running);
    assert_eq!(md.process_pid, Some(4242));
    // History preserved.
    assert_eq!(md.previous_step.as_deref(), Some("watch_pr_checks"));
    assert_eq!(md.previous_outcome.as_deref(), Some("wait"));
}

#[test]
fn run_metadata_transitions() {
    let mut md = RunMetadata::new("run-1", "wf", "cfg", persistence_now());
    assert_eq!(md.status, RunStatus::Initialized);
    assert!(md.updated_at.is_none());
    md.mark_started(persistence_now());
    assert_eq!(md.status, RunStatus::Running);
    assert!(md.updated_at.is_some());
    md.set_current_step("build", persistence_now());
    assert_eq!(md.current_step.as_deref(), Some("build"));
    md.set_next_step_candidates(vec!["test".to_string()], persistence_now());
    assert_eq!(md.next_step_candidates, vec!["test".to_string()]);
    md.mark_completed(persistence_now());
    assert_eq!(md.status, RunStatus::Completed);
    assert_eq!(md.run_id, "run-1");
    assert!(!md.is_cleanup_failure_abandonment());
}

#[test]
fn child_pids_stay_distinct() {
    let mut md = RunMetadata::new("r", "wf", "cfg", persistence_now());
    md.add_child_pid(10, persistence_now());
    md.add_child_pid(20, persistence_now());
    md.add_child_pid(10, persistence_now()); // duplicate ignored
    assert_eq!(md.child_pids, vec![10, 20]);
    md.clear_child_pids(persistence_now());
    assert!(md.child_pids.is_empty());
}

#[test]
fn duplicate_keeps_every_field() {
    let mut md = RunMetadata::new("r", "wf", "cfg", persistence_now());
    md.issue_number = Some(5);
    md.add_child_pid(3, persistence_now());
    let copy = md.duplicate();
    assert_eq!(copy.run_id, md.run_id);
    assert_eq!(copy.issue_number, Some(5));
    assert_eq!(copy.child_pids, vec![3]);
    assert_eq!(copy.created_at, md.created_at);
}

#[test]
fn status_display_fromstr_round_trip() {
    for status in [
        LeaseStatus::Pending,
        LeaseStatus::Claimed,
        LeaseStatus::Running,
        LeaseStatus::WaitingExternal,
        LeaseStatus::ReadyToResume,
        LeaseStatus::Completed,
        LeaseStatus::Failed,
        LeaseStatus::Abandoned,
        LeaseStatus::Stale,
    ] {
        let s = status.to_string();
        assert_eq!(s.parse::<LeaseStatus>().unwrap(), status);
    }
}

#[test]
fn lease_status_classes() {
    assert!(LeaseStatus::Claimed.is_active());
    assert!(LeaseStatus::Running.is_active());
    assert!(!LeaseStatus::WaitingExternal.is_active());
    assert!(LeaseStatus::WaitingExternal.blocks_duplicate_work());
    assert!(LeaseStatus::ReadyToResume.blocks_duplicate_work());
    assert!(!LeaseStatus::Completed.blocks_duplicate_work());
    assert_eq!(lease_status_or_pending("bogus"), LeaseStatus::Pending);
    assert_eq!(lease_status_or_pending("stale"), LeaseStatus::Stale);
    assert!("bogus".parse::<LeaseStatus>().is_err());
}

#[test]
fn placeholders_render() {
    assert_eq!(sql_placeholders(0), "");
    assert_eq!(sql_placeholders(1), "?");
    assert_eq!(sql_placeholders(3), "?, ?, ?");
}

#[test]
fn conditional_update_plans() {
    assert_eq!(plan_conditional_update(2, Some(""), false), ConditionalUpdatePlan::InvalidRunId);
    assert_eq!(plan_conditional_update(0, None, true), ConditionalUpdatePlan::NoOp);
    match plan_conditional_update(3, Some("run-x"), true) {
        ConditionalUpdatePlan::Execute { sql, bind_count } => {
            assert_eq!(
                sql,
                "UPDATE issue_leases SET status = ?, run_id = COALESCE(?, run_id), updated_at = ? WHERE lease_id = ? AND status IN (?, ?, ?) AND run_id = ?"
            );
            assert_eq!(bind_count, 8);
            assert_eq!(sql.matches('?').count(), bind_count);
        }
        other => panic!("unexpected {other:?}"),
    }
    match plan_conditional_update(1, None, false) {
        ConditionalUpdatePlan::Execute { sql, bind_count } => {
            assert_eq!(bind_count, 5);
            assert_eq!(sql.matches('?').count(), bind_count);
        }
        other => panic!("unexpected {other:?}"),
    }
}

#[test]
fn claim_statement_binds_thirteen_values() {
    let sql = claim_statement();
    assert_eq!(sql.matches('?').count(), 9 + LeaseStatus::RECLAIMABLE.len());
    assert!(sql.starts_with("INSERT INTO issue_leases"));
    assert!(sql.ends_with("RETURNING lease_id"));
}

#[test]
fn issue_numbers_fit_sqlite_or_fail() {
    assert_eq!(issue_number_to_sql_i64(7), Ok(7));
    assert_eq!(issue_number_to_sql_i64(i64::MAX as u64), Ok(i64::MAX));
    assert_eq!(issue_number_to_sql_i64(u64::MAX), Err(u64::MAX));
}

#[test]
fn lease_claim_identity() {
    let now = Timestamp { secs: 2, nanos: 5 };
    assert_eq!(timestamp_nanos_or_zero(now), 2_000_000_005);
    assert_eq!(timestamp_nanos_or_zero(Timestamp { secs: -1, nanos: 500_000_000 }), -500_000_000);
    assert_eq!(timestamp_nanos_or_zero(Timestamp { secs: i64::MAX, nanos: 0 }), 0);
    let lease = IssueLease::new_claim("o/r", 7, "cfg", now);
    assert_eq!(lease.lease_id, "lease-o/r-7-2000000005");
    assert_eq!(lease.status, LeaseStatus::Claimed);
    assert_eq!(lease.run_id, None);
    assert!(claim_won(&Some("lease-o/r-7-2000000005".to_string()), &lease));
    assert!(!claim_won(&Some("other".to_string()), &lease));
    assert!(!claim_won(&None, &lease));
}

#[test]
fn conditional_lease_outcomes() {
    assert_eq!(classify_conditional_update(true, None), ConditionalLeaseStatusOutcome::Applied);
    assert_eq!(classify_conditional_update(false, None), ConditionalLeaseStatusOutcome::Missing);
    assert_eq!(
        classify_conditional_update(false, Some((LeaseStatus::Running, Some("r".to_string())))),
        ConditionalLeaseStatusOutcome::Rejected {
            current_status: LeaseStatus::Running,
            current_run_id: Some("r".to_string())
        }
    );
}

#[test]
fn checkpoint_resumable_status_classification() {
    assert!(is_resumable_checkpoint_status(CHECKPOINT_STATUS_WAITING));
    assert!(is_resumable_checkpoint_status(CHECKPOINT_STATUS_INTERRUPTED));
    assert!(is_resumable_checkpoint_status(CHECKPOINT_STATUS_READY_TO_RESUME));
    assert!(!is_resumable_checkpoint_status("completed"));
}

#[test]
fn checkpoint_tests_resumable_status_classification() {
    assert!(is_resumable_checkpoint_status(CHECKPOINT_STATUS_WAITING));
    assert!(is_resumable_checkpoint_status(CHECKPOINT_STATUS_INTERRUPTED));
    assert!(is_resumable_checkpoint_status(CHECKPOINT_STATUS_READY_TO_RESUME));
    assert!(!is_resumable_checkpoint_status("completed"));
}

#[test]
fn checkpoint_persistence_error_variants_exist() {
    let _db = PersistenceError::Database("test".to_string());
    let _ser = PersistenceError::Serialization("test".to_string());
    let _nf = PersistenceError::NotFound("test".to_string());
}

#[test]
fn checkpoint_tests_persistence_error_variants_exist() {
    let cases = [
        (PersistenceError::Database("disk full".to_string()), "disk full"),
        (PersistenceError::Serialization("bad field".to_string()), "bad field"),
        (PersistenceError::NotFound("run-7".to_string()), "run-7"),
    ];

    let mut rendered = Vec::new();
    for (error, context) in &cases {
        let text = error.to_string();
        assert!(text.contains(context), "a {error:?} must carry its context, got: {text}");
        rendered.push(text);
    }

    let same = "identical".to_string();
    let uniform = [
        PersistenceError::Database(same.clone()).to_string(),
        PersistenceError::Serialization(same.clone()).to_string(),
        PersistenceError::NotFound(same).to_string(),
    ];
    for (i, a) in uniform.iter().enumerate() {
        for b in uniform.iter().skip(i + 1) {
            assert_ne!(a, b, "two variants are indistinguishable when their context matches");
        }
    }
}

#[test]
fn persistence_error_texts() {
    assert_eq!(PersistenceError::Database("x".to_string()).to_string(), "database error: x");
    assert_eq!(
        PersistenceError::Serialization("x".to_string()).to_string(),
        "serialization error: x"
    );
    assert_eq!(PersistenceError::NotFound("x".to_string()).to_string(), "checkpoint not found: x");
    let io = PersistenceError::Io(std::io::Error::new(std::io::ErrorKind::Other, "gone"));
    assert_eq!(io.to_string(), "IO error: gone");
}

#[test]
fn checkpoint_checkpoint_can_be_created() {
    let cp = Checkpoint::new("run-123", "step-1", persistence_now());
    assert_eq!(cp.run_id, "run-123");
    assert_eq!(cp.step_id, "step-1");
    assert_eq!(cp.state_snapshot.status, "running");
}

#[test]
fn checkpoint_tests_checkpoint_can_be_created() {
    let cp = Checkpoint::new("run-123", "step-1", persistence_now());
    assert_eq!(cp.run_id, "run-123");
    assert_eq!(cp.step_id, "step-1");
    assert_eq!(cp.state_snapshot.status, "running");
}

#[test]
fn checkpoint_checkpoint_with_snapshot() {
    let snapshot = StateSnapshot {
        retry_count: 2,
        loop_count: 1,
        edge_loop_counts: HashMap::new(),
        context: HashMap::new(),
        status: "running".to_string(),
    };
    let cp = Checkpoint::with_snapshot("run-456", "step-2", snapshot, persistence_now());
    assert_eq!(cp.run_id, "run-456");
    assert_eq!(cp.step_id, "step-2");
    assert_eq!(cp.state_snapshot.retry_count, 2);
    assert_eq!(cp.state_snapshot.loop_count, 1);
}

#[test]
fn checkpoint_tests_checkpoint_with_snapshot() {
    let snapshot = StateSnapshot {
        retry_count: 2,
        loop_count: 1,
        edge_loop_counts: HashMap::new(),
        context: HashMap::new(),
        status: "running".to_string(),
    };
    let cp = Checkpoint::with_snapshot("run-456", "step-2", snapshot, persistence_now());
    assert_eq!(cp.run_id, "run-456");
    assert_eq!(cp.step_id, "step-2");
    assert_eq!(cp.state_snapshot.retry_count, 2);
    assert_eq!(cp.state_snapshot.loop_count, 1);
}

#[test]
fn checkpoint_checkpoint_mark_interrupted() {
    let mut cp = Checkpoint::new("run-789", "step-3", persistence_now());
    cp.mark_interrupted(persistence_now());
    assert_eq!(cp.state_snapshot.status, "interrupted");
}

#[test]
fn checkpoint_tests_checkpoint_mark_interrupted() {
    let mut cp = Checkpoint::new("run-789", "step-3", persistence_now());
    cp.mark_interrupted(persistence_now());
    assert_eq!(cp.state_snapshot.status, "interrupted");
}

#[test]
fn checkpoint_mark_completed_and_default_snapshot() {
    let mut cp = Checkpoint::new("run-1", "s", persistence_now());
    cp.mark_completed(persistence_now());
    assert_eq!(cp.state_snapshot.status, "completed");
    let snap = StateSnapshot::default();
    assert_eq!(snap.retry_count, 0);
    assert_eq!(snap.loop_count, 0);
    assert_eq!(snap.status, "running");
}

#[test]
fn checkpoint_lookup_by_step() {
    let cps = vec![
        Checkpoint::new("run-x", "step-a", persistence_now()),
        Checkpoint::new("run-x", "step-b", persistence_now()),
        Checkpoint::new("run-x", "step-b", persistence_now()),
        Checkpoint::new("run-x", "step-c", persistence_now()),
    ];
    assert_eq!(checkpoint_for_step(&cps, "step-b"), Some(1));
    assert_eq!(checkpoint_for_step(&cps, "nope"), None);
    assert_eq!(checkpoint_before_step(&cps, "step-b"), Some(0));
    assert_eq!(checkpoint_before_step(&cps, "step-c"), Some(2));
    assert_eq!(checkpoint_before_step(&cps, "step-a"), None);
    assert_eq!(checkpoint_before_step(&cps, "nope"), None);
}

#[test]
fn event_types_round_trip() {
    for t in [
        EventType::StepStart,
        EventType::StepOutcome,
        EventType::ProcessSpawn,
        EventType::ProcessExit,
        EventType::AgentSpawn,
        EventType::AgentExit,
        EventType::Error,
        EventType::TerminalState,
    ] {
        assert_eq!(t.to_string().parse::<EventType>().unwrap(), t);
    }
    assert_eq!(EventType::AgentExit.as_str(), "agent_exit");
    assert_eq!("nope".parse::<EventType>().unwrap_err(), "Unknown event type: nope");
}

#[test]
fn migration_state_decisions() {
    assert_eq!(classify_guarded_completion(1, None), GuardedCompletionOutcome::Transitioned);
    assert_eq!(
        classify_guarded_completion(0, Some(MigrationStatus::Completed)),
        GuardedCompletionOutcome::AlreadyCompleted
    );
    assert_eq!(
        classify_guarded_completion(0, Some(MigrationStatus::Pending)),
        GuardedCompletionOutcome::Missing
    );
    assert_eq!(classify_guarded_completion(0, None), GuardedCompletionOutcome::Missing);
    let row = MigrationStateRow {
        run_id: "r".to_string(),
        workspace_path: "/w".to_string(),
        intent_at: Timestamp { secs: 1, nanos: 0 },
        completed_at: None,
        status: MigrationStatus::Pending,
    };
    assert!(is_pending(&Some(row.clone())));
    assert!(!is_durably_completed(&Some(row.clone())));
    let done = MigrationStateRow { status: MigrationStatus::Completed, ..row };
    assert!(is_durably_completed(&Some(done.clone())));
    assert!(!is_pending(&Some(done)));
    assert!(!is_pending(&None));
    assert!(!is_durably_completed(&None));
    assert_eq!(MigrationStatus::parse_str("completed"), Some(MigrationStatus::Completed));
    assert_eq!(MigrationStatus::parse_str("done"), None);
}

#[test]
fn recovery_epoch_advances_by_one() {
    assert_eq!(next_epoch_value(4), 5);
    assert_eq!(next_epoch_value(u64::MAX), u64::MAX);
    assert_eq!(cas_outcome(1, 4, 4), CasOutcome::Advanced { from: 4, to: 5 });
    assert_eq!(cas_outcome(0, 4, 6), CasOutcome::Stale { persisted: 6, expected: 4 });
    assert_eq!(epoch_from_row(Some(9)), 9);
    assert_eq!(epoch_from_row(Some(-3)), 0);
    assert_eq!(epoch_from_row(None), 0);
}

#[test]
fn run_store_statements_and_outcomes() {
    assert_eq!(classify_conditional_status(true, None), ConditionalStatusOutcome::Updated);
    assert_eq!(
        classify_conditional_status(false, Some(RunStatus::Merged)),
        ConditionalStatusOutcome::AlreadyTerminal(RunStatus::Merged)
    );
    assert_eq!(classify_conditional_status(false, None), ConditionalStatusOutcome::RunMissing);
    assert_eq!(
        expected_status_update_statement(2),
        "UPDATE runs SET status = ?1, current_step = CASE WHEN ?2 IS NULL THEN current_step ELSE ?2 END, updated_at = ?3 WHERE run_id = ?4 AND status IN (?5, ?6)"
    );
    assert!(CONDITIONAL_STATUS_UPDATE_SQL.ends_with("NOT IN (?5, ?6, ?7, ?8, ?9)"));
    assert_eq!(unique_run_ids(&["a", "b", "a", "c", "b"]), vec!["a", "b", "c"]);
    assert!(unique_run_ids(&[]).is_empty());
}

#[test]
fn launch_persistence_error_texts() {
    assert_eq!(
        LaunchPersistenceError::RunCollision("r1".to_string()).to_string(),
        "launch collision: a run record already exists for run_id 'r1'; refusing to overwrite the existing launch record"
    );
    assert_eq!(
        LaunchPersistenceError::Database { run_id: "r1".to_string(), message: "locked".to_string() }
            .to_string(),
        "atomic launch persistence failed for run_id 'r1': locked"
    );
}

#[test]
fn string_list_round_trip() {
    let list = vec!["a".to_string(), "b".to_string()];
    let raw = serialize_string_list(&list);
    assert_eq!(raw, "[\"a\",\"b\"]");
    let back = deserialize_string_list(Some(raw));
    assert_eq!(back, list);
    assert!(deserialize_string_list(None).is_empty());
    assert!(deserialize_string_list(Some("not json".to_string())).is_empty());
}

#[test]
fn pid_list_round_trip() {
    let list = vec![1u32, 2u32, 3u32];
    let raw = serialize_pid_list(&list);
    assert_eq!(raw, "[1,2,3]");
    let back = deserialize_pid_list(Some(raw));
    assert_eq!(back, list);
    assert!(deserialize_pid_list(None).is_empty());
    assert_eq!(serialize_pid_list(&[]), "[]");
    assert!(deserialize_pid_list(Some("[-1]".to_string())).is_empty());
}

fn run_at(run_id: &str, secs: i64) -> RunMetadata {
    let mut md = RunMetadata::new(run_id, "wf", "cfg", persistence_now());
    md.created_at = Timestamp { secs, nanos: 0 };
    md
}

#[test]
fn runs_sort_newest_first_and_stably() {
    let runs = vec![run_at("a", 10), run_at("b", 30), run_at("c", 10), run_at("d", 20), run_at("e", 30)];
    let sorted = sort_runs_newest_first(runs);
    let ids: Vec<&str> = sorted.iter().map(|r| r.run_id.as_str()).collect();
    assert_eq!(ids, vec!["b", "e", "d", "a", "c"]);
    assert!(sort_runs_newest_first(Vec::new()).is_empty());
}

#[test]
fn run_id_lookup_chunks() {
    assert!(run_id_chunk_bounds(0).is_empty());
    assert_eq!(run_id_chunk_bounds(3), vec![(0, 3)]);
    assert_eq!(run_id_chunk_bounds(500), vec![(0, 500)]);
    assert_eq!(run_id_chunk_bounds(1201), vec![(0, 500), (500, 1000), (1000, 1201)]);
    assert_eq!(
        runs_by_ids_statement(2),
        format!("SELECT {RUN_SELECT_COLUMNS} FROM runs WHERE run_id IN (?, ?) ORDER BY created_at DESC")
    );
}

fn attempt_row(json: &[u8], digest: &str) -> AttemptRow {
    AttemptRow {
        attempt_id: 7,
        run_id: "run".to_string(),
        epoch: 1,
        source_attempt_id: None,
        operation_id: "op".to_string(),
        step_id: "s".to_string(),
        step_status: "started".to_string(),
        capsule_schema_version: 1,
        capsule_envelope_digest: "env".to_string(),
        state_snapshot: StateSnapshot::default(),
        state_snapshot_json: json.to_vec(),
        snapshot_digest: digest.to_string(),
        checkpoint_digest: None,
        runner_result_json: None,
        started_at: Timestamp { secs: 0, nanos: 0 },
        finalized_at: None,
    }
}

#[test]
fn attempt_snapshot_digest_checks() {
    let good = "ba7816bf8f01cfea414140de5dae2223b00361a396177a9cb410ff61f20015ad";
    assert!(verify_snapshot_digest(&attempt_row(b"abc", good)).is_ok());
    let err = verify_snapshot_digest(&attempt_row(b"abd", good)).unwrap_err();
    assert_eq!(err.attempt_id, 7);
    assert_eq!(err.stored, good);
    assert_ne!(err.recomputed, good);
    let text = SnapshotDigestMismatch { attempt_id: 7, stored: "x".to_string(), recomputed: "y".to_string() }
        .to_string();
    assert_eq!(text, "snapshot_digest mismatch for attempt 7 (stored x, recomputed y)");
}

#[test]
fn artifact_record_can_be_created() {
    let record = ArtifactRecord::new("run-123", "/artifacts/run-123/output.log", "log", "step-1", persistence_now());
    assert_eq!(record.run_id, "run-123");
    assert_eq!(record.artifact_kind, "log");
    assert_eq!(record.step_id, "step-1");
    assert_eq!(record.artifact_path, "/artifacts/run-123/output.log");
    assert_eq!(record.size_bytes, None);
}

#[test]
fn artifact_record_with_size() {
    let record =
        ArtifactRecord::new("run-456", "/artifacts/run-456/data.json", "output", "step-2", persistence_now()).with_size(1024);
    assert_eq!(record.size_bytes, Some(1024));
}

#[test]
fn get_artifacts_dir_is_deterministic() {
    let root = "/tmp/artifacts";
    let dir1 = get_artifacts_dir(root, "run-abc-123");
    let dir2 = get_artifacts_dir(root, "run-abc-123");
    assert_eq!(dir1, dir2);
    assert!(dir1.contains("run-abc-123"));
}

#[test]
fn artifacts_dir_joins_like_paths() {
    for (root, run) in [("/tmp/artifacts", "r1"), ("/tmp/artifacts/", "r1"), ("", "r1"), ("/tmp", "/abs/r1"), ("./artifacts", "")] {
        let expected = std::path::Path::new(root).join(run);
        assert_eq!(get_artifacts_dir(root, run), expected.to_string_lossy());
    }
}

#[test]
fn failure_cleanup_recovery_availability() {
    let complete = luther_workflow::persistence::run_metadata::FailureCleanupState {
        schema_version: 1,
        failed_step: "build".to_string(),
        failure_outcome: "failure".to_string(),
        failure_reason: "exit 1".to_string(),
        failed_checkpoint_id: "cp-1".to_string(),
        failed_state_snapshot: StateSnapshot::default(),
        cleanup_step: "cleanup".to_string(),
        cleanup_succeeded: true,
        captured_at: Timestamp { secs: 1, nanos: 0 },
        cleanup_completed_at: Some(Timestamp { secs: 2, nanos: 0 }),
        recovery_consumed_at: None,
    };
    assert!(complete.is_complete());
    assert!(complete.recovery_is_available());
    let consumed = luther_workflow::persistence::run_metadata::FailureCleanupState {
        recovery_consumed_at: Some(Timestamp { secs: 3, nanos: 0 }),
        ..complete.clone()
    };
    assert!(consumed.is_complete());
    assert!(!consumed.recovery_is_available());
    let unfinished = luther_workflow::persistence::run_metadata::FailureCleanupState {
        cleanup_completed_at: None,
        ..complete.clone()
    };
    assert!(!unfinished.is_complete());
    assert!(!unfinished.recovery_is_available());
    let old_schema = luther_workflow::persistence::run_metadata::FailureCleanupState { schema_version: 0, ..complete };
    assert!(!old_schema.recovery_is_available());
}
