use luther_workflow::monitor::ipc::ipc_endpoint_path;
use luther_workflow::persistence::checkpoint::{
    checkpoint_before_step, checkpoint_for_step, Checkpoint, StateSnapshot,
};
use luther_workflow::persistence::leases::{
    claim_statement, classify_conditional_update, issue_number_to_sql_i64,
    plan_conditional_update, ConditionalLeaseStatusOutcome, ConditionalUpdatePlan, LeaseStatus,
};
use luther_workflow::persistence::legacy_migration_state::{
    classify_guarded_completion, is_durably_completed, GuardedCompletionOutcome, MigrationStatus,
};
use luther_workflow::persistence::run_metadata::RunStatus;
use luther_workflow::persistence::run_store::{classify_conditional_status, ConditionalStatusOutcome};
use luther_workflow::time::Timestamp;

/// The wall clock now, as the library's timestamp.
fn storage_now() -> Timestamp {
    let since = std::time::SystemTime::now().duration_since(std::time::UNIX_EPOCH).unwrap();
    Timestamp { secs: since.as_secs() as i64, nanos: since.subsec_nanos() }
}

fn placeholder_count(sql: &str) -> usize {
    sql.chars().filter(|c| *c == '?').count()
}

fn planned_binds(expected: usize, new_run_id: Option<&str>, guarded: bool) -> (String, usize) {
    match plan_conditional_update(expected, new_run_id, guarded) {
        ConditionalUpdatePlan::Execute { sql, bind_count } => (sql, bind_count),
        other => panic!("expected an executable plan, got {other:?}"),
    }
}

#[test]
fn test_ipc_endpoint_creation() {
    let path_str = ipc_endpoint_path("/tmp/luther-data", 4242);
    assert!(path_str.contains("ipc"));
    assert!(path_str.contains("luther-monitor"));
    assert!(path_str.contains(".sock"));
}

#[test]
fn conditional_update_empty_expected_is_noop() {
    assert_eq!(
        plan_conditional_update(0, None, false),
        ConditionalUpdatePlan::NoOp,
        "empty expected set is a no-op"
    );
}

#[test]
fn conditional_update_bind_slot_count_matches_placeholders() {
    let (sql, binds) = planned_binds(1, Some("run-bnd"), true);
    assert_eq!(placeholder_count(&sql), binds, "1 expected status with expected_run_id must match");
    assert_eq!(binds, 6);
    let (sql, binds) = planned_binds(2, Some("run-bnd"), true);
    assert_eq!(placeholder_count(&sql), binds, "2 expected statuses with expected_run_id must match");
    assert_eq!(binds, 7);
    let (sql, binds) = planned_binds(4, Some("run-bnd"), false);
    assert_eq!(placeholder_count(&sql), binds, "all four expected statuses with correct bind slots");
    assert_eq!(binds, 8);
}

#[test]
fn conditional_update_three_status_bind_slots_match_placeholders() {
    let expected = [LeaseStatus::WaitingExternal, LeaseStatus::ReadyToResume, LeaseStatus::Running];
    let (sql, binds) = planned_binds(expected.len(), Some("run-bnd"), true);
    assert_eq!(placeholder_count(&sql), binds);
    assert_eq!(binds, 8);
}

#[test]
fn try_claim_bind_slot_count_matches_placeholders() {
    let sql = claim_statement();
    assert_eq!(
        placeholder_count(&sql),
        9 + LeaseStatus::RECLAIMABLE.len(),
        "claim must succeed with correct bind slots"
    );
    assert!(
        sql.contains("WHERE issue_leases.status IN (?, ?, ?, ?)"),
        "reclaim must succeed with correct bind slots"
    );
}

#[test]
fn conditional_update_rejects_empty_new_run_id_without_mutating_lease() {
    assert_eq!(
        plan_conditional_update(1, Some(""), true),
        ConditionalUpdatePlan::InvalidRunId,
        "an empty new run ID must be rejected"
    );
    assert_eq!(plan_conditional_update(0, Some(""), false), ConditionalUpdatePlan::InvalidRunId);
}

#[test]
fn create_lease_rejects_issue_number_above_sqlite_integer_range() {
    assert_eq!(
        issue_number_to_sql_i64(u64::MAX),
        Err(u64::MAX),
        "out-of-range issue number must fail"
    );
}

#[test]
fn lease_lookups_reject_issue_number_above_sqlite_integer_range() {
    for issue in [u64::MAX, (i64::MAX as u64) + 1] {
        assert_eq!(issue_number_to_sql_i64(issue), Err(issue));
    }
    assert_eq!(issue_number_to_sql_i64(7), Ok(7));
}

#[test]
fn conditional_outcome_distinguishes_rejected_from_missing() {
    let rejected = classify_conditional_update(
        false,
        Some((LeaseStatus::Failed, Some("run-current".to_string()))),
    );
    assert_eq!(
        rejected,
        ConditionalLeaseStatusOutcome::Rejected {
            current_status: LeaseStatus::Failed,
            current_run_id: Some("run-current".to_string()),
        }
    );
    let missing = classify_conditional_update(false, None);
    assert_eq!(missing, ConditionalLeaseStatusOutcome::Missing);
}

#[test]
fn waiting_external_blocks_duplicates_but_not_active_capacity() {
    let status = LeaseStatus::WaitingExternal;
    assert!(status.blocks_duplicate_work());
    assert!(!status.is_active());
    assert!(LeaseStatus::parse_str(status.as_str()).unwrap().blocks_duplicate_work());
}

#[test]
fn count_active_only_counts_claimed_and_running() {
    let statuses = [LeaseStatus::Claimed, LeaseStatus::Running, LeaseStatus::Completed];
    assert_eq!(statuses.iter().filter(|s| s.is_active()).count(), 2);
}

#[test]
fn durable_completed_returns_false_for_missing_run() {
    assert!(!is_durably_completed(&None));
}

#[test]
fn guarded_completion_transitions_pending_to_completed() {
    assert_eq!(classify_guarded_completion(1, Some(MigrationStatus::Completed)), GuardedCompletionOutcome::Transitioned);
}

#[test]
fn guarded_completion_already_completed_is_idempotent() {
    assert_eq!(
        classify_guarded_completion(0, Some(MigrationStatus::Completed)),
        GuardedCompletionOutcome::AlreadyCompleted
    );
}

#[test]
fn guarded_completion_missing_row_reports_missing() {
    assert_eq!(classify_guarded_completion(0, None), GuardedCompletionOutcome::Missing);
}

#[test]
fn sqlite_conditional_outcome_wrapper_classifies_terminal_and_missing_runs() {
    assert_eq!(
        classify_conditional_status(false, Some(RunStatus::Completed)),
        ConditionalStatusOutcome::AlreadyTerminal(RunStatus::Completed)
    );
    assert_eq!(classify_conditional_status(false, None), ConditionalStatusOutcome::RunMissing);
}

#[test]
fn mod_conditional_outcome_wrapper_classifies_terminal_and_missing_runs() {
    assert_eq!(
        classify_conditional_status(false, Some(RunStatus::Completed)),
        ConditionalStatusOutcome::AlreadyTerminal(RunStatus::Completed)
    );
    assert_eq!(classify_conditional_status(false, None), ConditionalStatusOutcome::RunMissing);
}

fn seeded(run_id: &str, steps: &[(&str, &str)]) -> Vec<Checkpoint> {
    steps
        .iter()
        .map(|(step, status)| {
            let snapshot = StateSnapshot { status: status.to_string(), ..Default::default() };
            Checkpoint::with_snapshot(run_id, step, snapshot, storage_now())
        })
        .collect()
}

fn assert_finds_specific_step() {
    let cps = seeded("run-x", &[("step-a", "completed"), ("step-b", "waiting")]);
    let found = &cps[checkpoint_for_step(&cps, "step-b").expect("checkpoint present")];
    assert_eq!(found.step_id, "step-b");
    assert_eq!(found.state_snapshot.status, "waiting");
    assert!(checkpoint_for_step(&cps, "nope").is_none());
}

fn assert_before_step_returns_prior() {
    let cps = seeded(
        "run-y",
        &[
            ("good_pre_watch", "completed"),
            ("watch_pr_checks", "completed"),
            ("post_pr_failure_terminal", "completed"),
        ],
    );
    let before = &cps[checkpoint_before_step(&cps, "post_pr_failure_terminal").expect("prior checkpoint")];
    assert_eq!(before.step_id, "watch_pr_checks");
    assert!(checkpoint_before_step(&cps, "good_pre_watch").is_none());
}

#[test]
fn checkpoint_tests_get_checkpoint_for_step_finds_specific_step() {
    assert_finds_specific_step();
}

#[test]
fn checkpoint_get_checkpoint_for_step_finds_specific_step() {
    assert_finds_specific_step();
}

#[test]
fn checkpoint_tests_load_checkpoint_before_step_returns_prior() {
    assert_before_step_returns_prior();
}

#[test]
fn checkpoint_load_checkpoint_before_step_returns_prior() {
    assert_before_step_returns_prior();
}
