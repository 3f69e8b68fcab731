//! Registry rows read back into the library's records: the raw column
//! values of a run, checkpoint, event or lease row, parsed and checked.

use vstd::prelude::*;
use crate::text::{owned, push_str, string_views};
use crate::time::{Timestamp, as_timestamp, parse_rfc3339, parse_utc_time, rfc3339_parsed, rfc3339_time, utc_time_parsed};
use crate::persistence::run_metadata::{
    deserialize_pid_list, deserialize_string_list, stored_pid_list, stored_string_list, FailureCleanupState,
    RunMetadata, RunStatus, RunStatusParseError,
};
use crate::persistence::checkpoint::{Checkpoint, EventRecord, StateSnapshot};
use crate::persistence::leases::{lease_status_or_pending, IssueLease, LeaseStatus};
use crate::persistence::legacy_migration_state::{MigrationStateRow, MigrationStatus};
use crate::persistence::effect_intents::{EffectIntent, EffectKind};

verus! {

/// Why a stored row could not be read back.
#[derive(Debug, Clone, PartialEq, Eq)]
pub enum RowError {
    /// The run's status column (3) is not a run status.
    InvalidStatus(RunStatusParseError),
    /// The run's creation time column (4) is not a time.
    InvalidDatetime,
    /// The run's failure-cleanup column (19) is not a valid record; the
    /// parser's message.
    InvalidFailureCleanup(String),
    /// A checkpoint's (column 6) or an event's (column 5) time is not a time.
    InvalidTimestamp { column: usize },
    /// A migration row's status column (4) is not a migration status.
    UnknownMigrationStatus(String),
    /// A migration row's intent time column (2) is not an RFC 3339 time;
    /// chrono's message.
    InvalidIntentTime(String),
    /// An effect intent's kind column (4) is not an effect kind.
    UnknownEffectKind(String),
}

impl RowError {
    /// The column the error is about.
    pub fn column(&self) -> (r: usize)
        ensures
            r == match self {
                RowError::InvalidStatus(_) => 3usize,
                RowError::InvalidDatetime => 4usize,
                RowError::InvalidFailureCleanup(_) => 19usize,
                RowError::InvalidTimestamp { column } => *column,
                RowError::UnknownMigrationStatus(_) => 4usize,
                RowError::InvalidIntentTime(_) => 2usize,
                RowError::UnknownEffectKind(_) => 4usize,
            },
    {
        match self {
            RowError::InvalidStatus(_) => 3,
            RowError::InvalidDatetime => 4,
            RowError::InvalidFailureCleanup(_) => 19,
            RowError::InvalidTimestamp { column } => *column,
            RowError::UnknownMigrationStatus(_) => 4,
            RowError::InvalidIntentTime(_) => 2,
            RowError::UnknownEffectKind(_) => 4,
        }
    }

    /// The error's message.
    pub fn to_string(&self) -> (r: String)
        ensures
            r@ == match self {
                RowError::InvalidStatus(e) => "Unknown run status: "@ + e.0@,
                RowError::InvalidDatetime => "Invalid datetime"@,
                RowError::InvalidFailureCleanup(m) => m@,
                RowError::InvalidTimestamp { .. } => "Invalid timestamp format"@,
                RowError::UnknownMigrationStatus(st) => "unknown migration status '"@ + st@ + "'"@,
                RowError::InvalidIntentTime(m) => m@,
                RowError::UnknownEffectKind(k) => "unknown effect kind '"@ + k@ + "'"@,
            },
    {
        match self {
            RowError::InvalidStatus(e) => e.to_string(),
            RowError::InvalidDatetime => owned("Invalid datetime"),
            RowError::InvalidFailureCleanup(m) => m.clone(),
            RowError::InvalidTimestamp { .. } => owned("Invalid timestamp format"),
            RowError::UnknownMigrationStatus(st) => {
                let mut msg = owned("unknown migration status '");
                push_str(&mut msg, st.as_str());
                push_str(&mut msg, "'");
                msg
            },
            RowError::InvalidIntentTime(m) => m.clone(),
            RowError::UnknownEffectKind(k) => {
                let mut msg = owned("unknown effect kind '");
                push_str(&mut msg, k.as_str());
                push_str(&mut msg, "'");
                msg
            },
        }
    }
}

/// The raw columns of a run row, in the registry's column order. The
/// failure-cleanup column comes already parsed from its JSON (or with the
/// parser's message).
#[derive(Debug)]
pub struct RunColumns {
    pub run_id: String,
    pub workflow_type_id: String,
    pub config_id: String,
    pub status: String,
    pub created_at: String,
    pub updated_at: Option<String>,
    pub current_step: Option<String>,
    pub previous_step: Option<String>,
    pub previous_outcome: Option<String>,
    pub next_step_candidates: Option<String>,
    pub log_path: Option<String>,
    pub artifact_root: Option<String>,
    pub workspace_path: Option<String>,
    pub repository: Option<String>,
    pub issue_number: Option<i64>,
    pub pr_number: Option<i64>,
    pub head_sha: Option<String>,
    pub process_pid: Option<i64>,
    pub child_pids: Option<String>,
    pub failure_cleanup: Result<Option<FailureCleanupState>, String>,
}

/// Whether a run read back holds what its columns say: the texts as stored,
/// the parsed creation time, the update time when it parses (else none), the
/// decoded lists, the pid cut to 32 bits, and the cleanup record.
pub open spec fn run_from_columns(md: RunMetadata, cols: RunColumns, status: RunStatus, created: Timestamp) -> bool {
    &&& md.run_id == cols.run_id
    &&& md.workflow_type_id == cols.workflow_type_id
    &&& md.config_id == cols.config_id
    &&& md.status == status
    &&& md.created_at == created
    &&& md.updated_at == match cols.updated_at {
        Some(u) => as_timestamp(utc_time_parsed(u@)),
        None => None,
    }
    &&& md.current_step == cols.current_step
    &&& md.previous_step == cols.previous_step
    &&& md.previous_outcome == cols.previous_outcome
    &&& string_views(md.next_step_candidates@) == stored_string_list(cols.next_step_candidates)
    &&& md.log_path == cols.log_path
    &&& md.artifact_root == cols.artifact_root
    &&& md.workspace_path == cols.workspace_path
    &&& md.repository == cols.repository
    &&& md.issue_number == cols.issue_number
    &&& md.pr_number == cols.pr_number
    &&& md.head_sha == cols.head_sha
    &&& md.process_pid == match cols.process_pid {
        Some(p) => Some(p as u32),
        None => None,
    }
    &&& md.child_pids@ == stored_pid_list(cols.child_pids)
    &&& cols.failure_cleanup == Ok::<Option<FailureCleanupState>, String>(md.failure_cleanup)
}

/// A run read back from its columns. The status must be a run status and
/// the creation time a time, else the row is refused (status first); a
/// failure-cleanup column that did not parse is refused after them. An
/// update time that does not parse is read as none.
pub fn run_metadata_from_columns(cols: RunColumns) -> (r: Result<RunMetadata, RowError>)
    ensures
        match RunStatus::from_label(cols.status@) {
            None => r matches Err(RowError::InvalidStatus(e)) && e.0@ == cols.status@,
            Some(st) => match as_timestamp(utc_time_parsed(cols.created_at@)) {
                None => r == Err::<RunMetadata, RowError>(RowError::InvalidDatetime),
                Some(created) => match cols.failure_cleanup {
                    Err(m) => r == Err::<RunMetadata, RowError>(RowError::InvalidFailureCleanup(m)),
                    Ok(_) => r matches Ok(md) && run_from_columns(md, cols, st, created),
                },
            },
        },
{
    let ghost given = cols;
    let status = match RunStatus::parse_str(cols.status.as_str()) {
        Ok(st) => st,
        Err(e) => return Err(RowError::InvalidStatus(e)),
    };
    let created_at = match parse_utc_time(cols.created_at.as_str()) {
        Some(t) => t,
        None => return Err(RowError::InvalidDatetime),
    };
    let RunColumns {
        run_id,
        workflow_type_id,
        config_id,
        status: _,
        created_at: _,
        updated_at,
        current_step,
        previous_step,
        previous_outcome,
        next_step_candidates,
        log_path,
        artifact_root,
        workspace_path,
        repository,
        issue_number,
        pr_number,
        head_sha,
        process_pid,
        child_pids,
        failure_cleanup,
    } = cols;
    let failure_cleanup = match failure_cleanup {
        Ok(fc) => fc,
        Err(m) => return Err(RowError::InvalidFailureCleanup(m)),
    };
    let updated = match &updated_at {
        Some(u) => parse_utc_time(u.as_str()),
        None => None,
    };
    let pid = match process_pid {
        Some(p) => Some(p as u32),
        None => None,
    };
    let md = RunMetadata {
        run_id,
        workflow_type_id,
        config_id,
        status,
        created_at,
        updated_at: updated,
        current_step,
        previous_step,
        previous_outcome,
        next_step_candidates: deserialize_string_list(next_step_candidates),
        log_path,
        artifact_root,
        workspace_path,
        repository,
        issue_number,
        pr_number,
        head_sha,
        process_pid: pid,
        child_pids: deserialize_pid_list(child_pids),
        failure_cleanup,
    };
    assert(run_from_columns(md, given, status, created_at));
    Ok(md)
}

/// A checkpoint read back from its columns: the counts cut to 32 bits, the
/// snapshot's maps and status as given, and the time parsed from the
/// timestamp column (6); a time that does not parse refuses the row.
pub fn checkpoint_from_columns(
    run_id: String,
    step_id: String,
    retry_count: i64,
    loop_count: i64,
    edge_loop_counts: std::collections::HashMap<String, u32>,
    context: std::collections::HashMap<String, serde_json::Value>,
    status: String,
    timestamp: &str,
) -> (r: Result<Checkpoint, RowError>)
    ensures
        match as_timestamp(utc_time_parsed(timestamp@)) {
            None => r == Err::<Checkpoint, RowError>(RowError::InvalidTimestamp { column: 6 }),
            Some(t) => r matches Ok(c) && c.run_id == run_id && c.step_id == step_id && c.timestamp == t
                && c.state_snapshot == (StateSnapshot {
                retry_count: retry_count as u32,
                loop_count: loop_count as u32,
                edge_loop_counts,
                context,
                status,
            }),
        },
{
    match parse_utc_time(timestamp) {
        Some(t) => Ok(
            Checkpoint {
                run_id,
                step_id,
                state_snapshot: StateSnapshot {
                    retry_count: retry_count as u32,
                    loop_count: loop_count as u32,
                    edge_loop_counts,
                    context,
                    status,
                },
                timestamp: t,
            },
        ),
        None => Err(RowError::InvalidTimestamp { column: 6 }),
    }
}

/// An event read back from its columns, with the time parsed from the
/// timestamp column (5); a time that does not parse refuses the row.
pub fn event_from_columns(
    run_id: String,
    step_id: String,
    outcome: String,
    event_type: String,
    details: Option<String>,
    timestamp: &str,
) -> (r: Result<EventRecord, RowError>)
    ensures
        match as_timestamp(utc_time_parsed(timestamp@)) {
            None => r == Err::<EventRecord, RowError>(RowError::InvalidTimestamp { column: 5 }),
            Some(t) => r == Ok::<EventRecord, RowError>(
                EventRecord { run_id, step_id, outcome, event_type, details, timestamp: t },
            ),
        },
{
    match parse_utc_time(timestamp) {
        Some(t) => Ok(EventRecord { run_id, step_id, outcome, event_type, details, timestamp: t }),
        None => Err(RowError::InvalidTimestamp { column: 5 }),
    }
}

/// A stored lease time: the RFC 3339 time, or the epoch when it does not
/// parse.
pub open spec fn lease_time(text: Seq<char>) -> Timestamp {
    match rfc3339_time(text) {
        Some(t) => t,
        None => Timestamp { secs: 0, nanos: 0 },
    }
}

fn lease_time_of(text: &str) -> (r: Timestamp)
    ensures
        r == lease_time(text@),
{
    match parse_rfc3339(text) {
        Ok(t) => t,
        Err(_) => Timestamp { secs: 0, nanos: 0 },
    }
}

/// A lease read back from its columns: an unknown status reads as
/// `Pending`, the issue number is the stored integer's bits, and a time
/// that does not parse reads as the epoch.
pub fn lease_from_columns(
    lease_id: String,
    issue_repo: String,
    issue_number: i64,
    config_id: String,
    run_id: Option<String>,
    status: &str,
    claimed_at: &str,
    updated_at: &str,
    heartbeat_at: &str,
) -> (r: IssueLease)
    ensures
        r == (IssueLease {
            lease_id,
            issue_repo,
            issue_number: issue_number as u64,
            config_id,
            run_id,
            status: match LeaseStatus::from_label(status@) {
                Some(st) => st,
                None => LeaseStatus::Pending,
            },
            claimed_at: lease_time(claimed_at@),
            updated_at: lease_time(updated_at@),
            heartbeat_at: lease_time(heartbeat_at@),
        }),
{
    IssueLease {
        lease_id,
        issue_repo,
        issue_number: issue_number as u64,
        config_id,
        run_id,
        status: lease_status_or_pending(status),
        claimed_at: lease_time_of(claimed_at),
        updated_at: lease_time_of(updated_at),
        heartbeat_at: lease_time_of(heartbeat_at),
    }
}

/// A migration row read back from its columns. The status must be a
/// migration status (column 4) and the intent time an RFC 3339 time (column
/// 2), else the row is refused, the status first; a completion time that
/// does not parse reads as none.
pub fn migration_row_from_columns(
    run_id: String,
    workspace_path: String,
    intent_at: &str,
    completed_at: Option<String>,
    status: &str,
) -> (r: Result<MigrationStateRow, RowError>)
    ensures
        match MigrationStatus::from_label(status@) {
            None => r matches Err(RowError::UnknownMigrationStatus(st)) && st@ == status@,
            Some(st) => match rfc3339_parsed(intent_at@) {
                Err(m) => r matches Err(RowError::InvalidIntentTime(e)) && e@ == m,
                Ok((secs, nanos)) => r == Ok::<MigrationStateRow, RowError>(
                    MigrationStateRow {
                        run_id,
                        workspace_path,
                        intent_at: Timestamp { secs, nanos },
                        completed_at: match completed_at {
                            Some(c) => rfc3339_time(c@),
                            None => None,
                        },
                        status: st,
                    },
                ),
            },
        },
{
    let st = match MigrationStatus::parse_str(status) {
        Some(st) => st,
        None => return Err(RowError::UnknownMigrationStatus(owned(status))),
    };
    let intent = match parse_rfc3339(intent_at) {
        Ok(t) => t,
        Err(m) => return Err(RowError::InvalidIntentTime(m)),
    };
    let completed = match &completed_at {
        Some(c) => match parse_rfc3339(c.as_str()) {
            Ok(t) => Some(t),
            Err(_) => None,
        },
        None => None,
    };
    Ok(MigrationStateRow { run_id, workspace_path, intent_at: intent, completed_at: completed, status: st })
}

/// An effect intent read back from its columns. The kind must be an effect
/// kind (column 4), else the row is refused; a payload version outside the
/// range of `u32` reads as 0.
pub fn effect_intent_from_columns(
    effect_key: String,
    operation_id: String,
    attempt_id: i64,
    sequence: i64,
    effect_kind: &str,
    canonical_payload: Vec<u8>,
    payload_digest: String,
    payload_version: i64,
    expected_target: Option<String>,
    expected_predecessor: Option<String>,
    observed_result: Option<String>,
    status: String,
) -> (r: Result<EffectIntent, RowError>)
    ensures
        match EffectKind::from_label(effect_kind@) {
            None => r matches Err(RowError::UnknownEffectKind(k)) && k@ == effect_kind@,
            Some(kind) => r == Ok::<EffectIntent, RowError>(
                EffectIntent {
                    effect_key,
                    operation_id,
                    attempt_id,
                    sequence,
                    effect_kind: kind,
                    canonical_payload,
                    payload_digest,
                    payload_version: if 0 <= payload_version <= u32::MAX {
                        payload_version as u32
                    } else {
                        0
                    },
                    expected_target,
                    expected_predecessor,
                    observed_result,
                    status,
                },
            ),
        },
{
    let kind = match EffectKind::parse_str(effect_kind) {
        Some(k) => k,
        None => return Err(RowError::UnknownEffectKind(owned(effect_kind))),
    };
    let version: u32 = if 0 <= payload_version && payload_version <= 4_294_967_295 {
        payload_version as u32
    } else {
        0
    };
    Ok(
        EffectIntent {
            effect_key,
            operation_id,
            attempt_id,
            sequence,
            effect_kind: kind,
            canonical_payload,
            payload_digest,
            payload_version: version,
            expected_target,
            expected_predecessor,
            observed_result,
            status,
        },
    )
}

} // verus!
