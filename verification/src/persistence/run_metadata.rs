//! Run metadata: the lifecycle status of a workflow run and the identifiers
//! needed to reconstruct its context.

use vstd::prelude::*;
use crate::text::{
    copy_opt_string, copy_strings, copy_u32s, decimal, joined, owned, push_str, str_eq,
    string_views,
};
use crate::time::Timestamp;
use crate::digest::hex_char;
use crate::persistence::checkpoint::StateSnapshot;

verus! {

/// Status of a workflow run.
#[derive(Debug, Clone, Copy, PartialEq, Eq, Structural)]
pub enum RunStatus {
    Initialized,
    Queued,
    Starting,
    Running,
    WaitingForChecks,
    WaitingExternal,
    ReadyToResume,
    Remediating,
    Blocked,
    Paused,
    Completed,
    Failed,
    Abandoned,
    Merged,
    Cancelled,
}

/// Error returned when persisted text is not a recognized [`RunStatus`];
/// carries the text.
#[derive(Debug, Clone, PartialEq, Eq)]
pub struct RunStatusParseError(pub String);

impl RunStatusParseError {
    /// `Unknown run status: <text>`.
    pub fn to_string(&self) -> (r: String)
        ensures
            r@ == "Unknown run status: "@ + self.0@,
    {
        let mut msg = owned("Unknown run status: ");
        push_str(&mut msg, self.0.as_str());
        msg
    }
}

impl RunStatus {
    /// The persisted string of each terminal status, in the order of
    /// [`RunStatus::is_terminal`]'s set.
    pub const TERMINAL_SQL: [&'static str; 5] = ["completed", "failed", "abandoned", "merged", "cancelled"];

    /// The canonical snake_case string of a status.
    pub open spec fn label(self) -> Seq<char> {
        match self {
            RunStatus::Initialized => "initialized"@,
            RunStatus::Queued => "queued"@,
            RunStatus::Starting => "starting"@,
            RunStatus::Running => "running"@,
            RunStatus::WaitingForChecks => "waiting_for_checks"@,
            RunStatus::WaitingExternal => "waiting_external"@,
            RunStatus::ReadyToResume => "ready_to_resume"@,
            RunStatus::Remediating => "remediating"@,
            RunStatus::Blocked => "blocked"@,
            RunStatus::Paused => "paused"@,
            RunStatus::Completed => "completed"@,
            RunStatus::Failed => "failed"@,
            RunStatus::Abandoned => "abandoned"@,
            RunStatus::Merged => "merged"@,
            RunStatus::Cancelled => "cancelled"@,
        }
    }

    /// The status a string denotes, if any.
    pub open spec fn from_label(s: Seq<char>) -> Option<RunStatus> {
        if s == "initialized"@ {
            Some(RunStatus::Initialized)
        } else if s == "queued"@ {
            Some(RunStatus::Queued)
        } else if s == "starting"@ {
            Some(RunStatus::Starting)
        } else if s == "running"@ {
            Some(RunStatus::Running)
        } else if s == "waiting_for_checks"@ {
            Some(RunStatus::WaitingForChecks)
        } else if s == "waiting_external"@ {
            Some(RunStatus::WaitingExternal)
        } else if s == "ready_to_resume"@ {
            Some(RunStatus::ReadyToResume)
        } else if s == "remediating"@ {
            Some(RunStatus::Remediating)
        } else if s == "blocked"@ {
            Some(RunStatus::Blocked)
        } else if s == "paused"@ {
            Some(RunStatus::Paused)
        } else if s == "completed"@ {
            Some(RunStatus::Completed)
        } else if s == "failed"@ {
            Some(RunStatus::Failed)
        } else if s == "abandoned"@ {
            Some(RunStatus::Abandoned)
        } else if s == "merged"@ {
            Some(RunStatus::Merged)
        } else if s == "cancelled"@ {
            Some(RunStatus::Cancelled)
        } else {
            None
        }
    }

    /// Whether a status is terminal.
    pub open spec fn terminal(self) -> bool {
        self == RunStatus::Completed || self == RunStatus::Failed || self == RunStatus::Abandoned
            || self == RunStatus::Merged || self == RunStatus::Cancelled
    }

    /// Whether an operator may reopen/continue a run in this status.
    pub open spec fn resumable(self) -> bool {
        self == RunStatus::WaitingForChecks || self == RunStatus::WaitingExternal || self
            == RunStatus::ReadyToResume || self == RunStatus::Paused || self == RunStatus::Blocked
            || self == RunStatus::Failed
    }

    /// The canonical string of a status.
    pub fn as_str(&self) -> (r: &'static str)
        ensures
            r@ == self.label(),
    {
        match self {
            RunStatus::Initialized => "initialized",
            RunStatus::Queued => "queued",
            RunStatus::Starting => "starting",
            RunStatus::Running => "running",
            RunStatus::WaitingForChecks => "waiting_for_checks",
            RunStatus::WaitingExternal => "waiting_external",
            RunStatus::ReadyToResume => "ready_to_resume",
            RunStatus::Remediating => "remediating",
            RunStatus::Blocked => "blocked",
            RunStatus::Paused => "paused",
            RunStatus::Completed => "completed",
            RunStatus::Failed => "failed",
            RunStatus::Abandoned => "abandoned",
            RunStatus::Merged => "merged",
            RunStatus::Cancelled => "cancelled",
        }
    }

    /// The canonical string as an owned string.
    pub fn to_string(&self) -> (r: String)
        ensures
            r@ == self.label(),
    {
        owned(self.as_str())
    }

    /// Parse a persisted status string.
    pub fn parse_str(s: &str) -> (r: Result<RunStatus, RunStatusParseError>)
        ensures
            match Self::from_label(s@) {
                Some(st) => r == Ok::<RunStatus, RunStatusParseError>(st),
                None => r matches Err(e) && e.0@ == s@,
            },
    {
        if str_eq(s, "initialized") {
            Ok(RunStatus::Initialized)
        } else if str_eq(s, "queued") {
            Ok(RunStatus::Queued)
        } else if str_eq(s, "starting") {
            Ok(RunStatus::Starting)
        } else if str_eq(s, "running") {
            Ok(RunStatus::Running)
        } else if str_eq(s, "waiting_for_checks") {
            Ok(RunStatus::WaitingForChecks)
        } else if str_eq(s, "waiting_external") {
            Ok(RunStatus::WaitingExternal)
        } else if str_eq(s, "ready_to_resume") {
            Ok(RunStatus::ReadyToResume)
        } else if str_eq(s, "remediating") {
            Ok(RunStatus::Remediating)
        } else if str_eq(s, "blocked") {
            Ok(RunStatus::Blocked)
        } else if str_eq(s, "paused") {
            Ok(RunStatus::Paused)
        } else if str_eq(s, "completed") {
            Ok(RunStatus::Completed)
        } else if str_eq(s, "failed") {
            Ok(RunStatus::Failed)
        } else if str_eq(s, "abandoned") {
            Ok(RunStatus::Abandoned)
        } else if str_eq(s, "merged") {
            Ok(RunStatus::Merged)
        } else if str_eq(s, "cancelled") {
            Ok(RunStatus::Cancelled)
        } else {
            Err(RunStatusParseError(owned(s)))
        }
    }

    /// Returns true when the status represents a terminal run state.
    pub fn is_terminal(&self) -> (r: bool)
        ensures
            r == self.terminal(),
    {
        match self {
            RunStatus::Completed | RunStatus::Failed | RunStatus::Abandoned | RunStatus::Merged
            | RunStatus::Cancelled => true,
            _ => false,
        }
    }

    /// Returns true when the run can be reopened/continued by an operator:
    /// the waiting, paused and blocked states, and a failed run.
    pub fn is_resumable(&self) -> (r: bool)
        ensures
            r == self.resumable(),
    {
        match self {
            RunStatus::WaitingForChecks | RunStatus::WaitingExternal | RunStatus::ReadyToResume
            | RunStatus::Paused | RunStatus::Blocked | RunStatus::Failed => true,
            _ => false,
        }
    }
}

impl std::str::FromStr for RunStatus {
    type Err = RunStatusParseError;

    fn from_str(s: &str) -> (r: Result<Self, Self::Err>)
        ensures
            match RunStatus::from_label(s@) {
                Some(st) => r == Ok::<RunStatus, RunStatusParseError>(st),
                None => r matches Err(e) && e.0@ == s@,
            },
    {
        RunStatus::parse_str(s)
    }
}

/// Law: a text that parses as a run status is that status's label.
pub proof fn lemma_run_status_label_of_parsed(s: Seq<char>)
    ensures
        RunStatus::from_label(s) matches Some(st) ==> st.label() == s,
{
}

/// Law: every run status parses back from its canonical string.
pub proof fn lemma_run_status_round_trip(status: RunStatus)
    ensures
        RunStatus::from_label(status.label()) == Some(status),
{
    reveal_strlit("initialized");
    reveal_strlit("queued");
    reveal_strlit("starting");
    reveal_strlit("running");
    reveal_strlit("waiting_for_checks");
    reveal_strlit("waiting_external");
    reveal_strlit("ready_to_resume");
    reveal_strlit("remediating");
    reveal_strlit("blocked");
    reveal_strlit("paused");
    reveal_strlit("completed");
    reveal_strlit("failed");
    reveal_strlit("abandoned");
    reveal_strlit("merged");
    reveal_strlit("cancelled");
    assert("initialized"@.len() == 11);
    assert("queued"@.len() == 6);
    assert("starting"@.len() == 8);
    assert("running"@.len() == 7);
    assert("waiting_for_checks"@.len() == 18);
    assert("waiting_external"@.len() == 16);
    assert("ready_to_resume"@.len() == 15);
    assert("remediating"@.len() == 11);
    assert("blocked"@.len() == 7);
    assert("paused"@.len() == 6);
    assert("completed"@.len() == 9);
    assert("failed"@.len() == 6);
    assert("abandoned"@.len() == 9);
    assert("merged"@.len() == 6);
    assert("cancelled"@.len() == 9);
    assert("initialized"@[0] != "remediating"@[0]);
    assert("queued"@[0] != "paused"@[0]);
    assert("queued"@[0] != "failed"@[0]);
    assert("queued"@[0] != "merged"@[0]);
    assert("paused"@[0] != "failed"@[0]);
    assert("paused"@[0] != "merged"@[0]);
    assert("failed"@[0] != "merged"@[0]);
    assert("running"@[0] != "blocked"@[0]);
    assert("completed"@[0] != "abandoned"@[0]);
    assert("completed"@[0] != "cancelled"@[2]);
    assert("completed"@[2] != "cancelled"@[2]);
    assert("abandoned"@[0] != "cancelled"@[0]);
}

/// Law: the persisted terminal strings are exactly the canonical strings of
/// the terminal statuses, so a SQL guard over them and [`RunStatus::is_terminal`]
/// agree.
pub proof fn lemma_terminal_sql_matches(status: RunStatus)
    ensures
        status.terminal() <==> exists|i: int| 0 <= i < 5 && RunStatus::TERMINAL_SQL@[i]@ == status.label(),
{
    lemma_run_status_round_trip(status);
    let t = RunStatus::TERMINAL_SQL@;
    if status.terminal() {
        if status == RunStatus::Completed {
            assert(t[0]@ == status.label());
        } else if status == RunStatus::Failed {
            assert(t[1]@ == status.label());
        } else if status == RunStatus::Abandoned {
            assert(t[2]@ == status.label());
        } else if status == RunStatus::Merged {
            assert(t[3]@ == status.label());
        } else {
            assert(t[4]@ == status.label());
        }
    } else {
        assert forall|i: int| 0 <= i < 5 implies t[i]@ != status.label() by {
            lemma_run_status_round_trip(RunStatus::Completed);
            lemma_run_status_round_trip(RunStatus::Failed);
            lemma_run_status_round_trip(RunStatus::Abandoned);
            lemma_run_status_round_trip(RunStatus::Merged);
            lemma_run_status_round_trip(RunStatus::Cancelled);
        }
    }
}

/// Durable provenance for a failed work step followed by successful cleanup.
#[derive(Debug, Clone, PartialEq, Eq)]
pub struct FailureCleanupState {
    pub schema_version: u32,
    pub failed_step: String,
    pub failure_outcome: String,
    pub failure_reason: String,
    pub failed_checkpoint_id: String,
    pub failed_state_snapshot: StateSnapshot,
    pub cleanup_step: String,
    pub cleanup_succeeded: bool,
    pub captured_at: Timestamp,
    pub cleanup_completed_at: Option<Timestamp>,
    pub recovery_consumed_at: Option<Timestamp>,
}

impl FailureCleanupState {
    /// The schema version of records written now.
    pub const SCHEMA_VERSION: u32 = 1;

    /// Whether the record is complete: current schema, every identifying
    /// field present, cleanup succeeded and its completion time recorded.
    pub open spec fn complete(self) -> bool {
        &&& self.schema_version == Self::SCHEMA_VERSION
        &&& self.failed_step@.len() > 0
        &&& self.failure_outcome@.len() > 0
        &&& self.failure_reason@.len() > 0
        &&& self.failed_checkpoint_id@.len() > 0
        &&& self.cleanup_step@.len() > 0
        &&& self.cleanup_succeeded
        &&& self.cleanup_completed_at is Some
    }

    /// Whether two records are the same, their snapshots compared by
    /// content.
    pub open spec fn same_as(self, other: FailureCleanupState) -> bool {
        &&& self.schema_version == other.schema_version
        &&& self.failed_step == other.failed_step
        &&& self.failure_outcome == other.failure_outcome
        &&& self.failure_reason == other.failure_reason
        &&& self.failed_checkpoint_id == other.failed_checkpoint_id
        &&& self.failed_state_snapshot.same_as(other.failed_state_snapshot)
        &&& self.cleanup_step == other.cleanup_step
        &&& self.cleanup_succeeded == other.cleanup_succeeded
        &&& self.captured_at == other.captured_at
        &&& self.cleanup_completed_at == other.cleanup_completed_at
        &&& self.recovery_consumed_at == other.recovery_consumed_at
    }

    /// A copy of this record.
    pub fn duplicate(&self) -> (r: Self)
        ensures
            r.same_as(*self),
    {
        FailureCleanupState {
            schema_version: self.schema_version,
            failed_step: self.failed_step.clone(),
            failure_outcome: self.failure_outcome.clone(),
            failure_reason: self.failure_reason.clone(),
            failed_checkpoint_id: self.failed_checkpoint_id.clone(),
            failed_state_snapshot: self.failed_state_snapshot.duplicate(),
            cleanup_step: self.cleanup_step.clone(),
            cleanup_succeeded: self.cleanup_succeeded,
            captured_at: self.captured_at,
            cleanup_completed_at: self.cleanup_completed_at,
            recovery_consumed_at: self.recovery_consumed_at,
        }
    }

    /// Whether the record is complete (see [`FailureCleanupState::complete`]).
    pub fn is_complete(&self) -> (r: bool)
        ensures
            r == self.complete(),
    {
        self.schema_version == Self::SCHEMA_VERSION && !self.failed_step.as_str().is_empty()
            && !self.failure_outcome.as_str().is_empty() && !self.failure_reason.as_str().is_empty()
            && !self.failed_checkpoint_id.as_str().is_empty() && !self.cleanup_step.as_str().is_empty()
            && self.cleanup_succeeded && self.cleanup_completed_at.is_some()
    }

    /// Whether the recorded failure may still drive a recovery: complete and
    /// not yet consumed.
    pub fn recovery_is_available(&self) -> (r: bool)
        ensures
            r == (self.complete() && self.recovery_consumed_at is None),
    {
        self.is_complete() && self.recovery_consumed_at.is_none()
    }
}

/// Metadata for a workflow run persisted to storage.
#[derive(Debug, Clone)]
pub struct RunMetadata {
    pub run_id: String,
    pub workflow_type_id: String,
    pub config_id: String,
    pub status: RunStatus,
    pub created_at: Timestamp,
    pub updated_at: Option<Timestamp>,
    pub current_step: Option<String>,
    pub previous_step: Option<String>,
    pub previous_outcome: Option<String>,
    pub next_step_candidates: Vec<String>,
    pub log_path: Option<String>,
    pub artifact_root: Option<String>,
    pub workspace_path: Option<String>,
    pub repository: Option<String>,
    pub issue_number: Option<i64>,
    pub pr_number: Option<i64>,
    pub head_sha: Option<String>,
    pub process_pid: Option<u32>,
    pub child_pids: Vec<u32>,
    pub failure_cleanup: Option<FailureCleanupState>,
}

impl RunMetadata {
    /// New `Initialized` metadata created now, with nothing else recorded.
    pub fn new(run_id: &str, workflow_type_id: &str, config_id: &str, now: Timestamp) -> (r: Self)
        ensures
            r.run_id@ == run_id@,
            r.created_at == now,
            r.workflow_type_id@ == workflow_type_id@,
            r.config_id@ == config_id@,
            r.status == RunStatus::Initialized,
            r.updated_at is None,
            r.current_step is None,
            r.previous_step is None,
            r.previous_outcome is None,
            r.next_step_candidates@.len() == 0,
            r.log_path is None,
            r.artifact_root is None,
            r.workspace_path is None,
            r.repository is None,
            r.issue_number is None,
            r.pr_number is None,
            r.head_sha is None,
            r.process_pid is None,
            r.child_pids@.len() == 0,
            r.failure_cleanup is None,
    {
        RunMetadata {
            run_id: owned(run_id),
            workflow_type_id: owned(workflow_type_id),
            config_id: owned(config_id),
            status: RunStatus::Initialized,
            created_at: now,
            updated_at: None,
            current_step: None,
            previous_step: None,
            previous_outcome: None,
            next_step_candidates: Vec::new(),
            log_path: None,
            artifact_root: None,
            workspace_path: None,
            repository: None,
            issue_number: None,
            pr_number: None,
            head_sha: None,
            process_pid: None,
            child_pids: Vec::new(),
            failure_cleanup: None,
        }
    }

    /// Whether two metadata records are the same, failure snapshots compared
    /// by content.
    pub open spec fn same_as(self, other: RunMetadata) -> bool {
        &&& self.run_id == other.run_id
        &&& self.workflow_type_id == other.workflow_type_id
        &&& self.config_id == other.config_id
        &&& self.status == other.status
        &&& self.created_at == other.created_at
        &&& self.updated_at == other.updated_at
        &&& self.current_step == other.current_step
        &&& self.previous_step == other.previous_step
        &&& self.previous_outcome == other.previous_outcome
        &&& self.next_step_candidates@ == other.next_step_candidates@
        &&& self.log_path == other.log_path
        &&& self.artifact_root == other.artifact_root
        &&& self.workspace_path == other.workspace_path
        &&& self.repository == other.repository
        &&& self.issue_number == other.issue_number
        &&& self.pr_number == other.pr_number
        &&& self.head_sha == other.head_sha
        &&& self.process_pid == other.process_pid
        &&& self.child_pids@ == other.child_pids@
        &&& match (self.failure_cleanup, other.failure_cleanup) {
            (Some(a), Some(b)) => a.same_as(b),
            (None, None) => true,
            _ => false,
        }
    }

    /// A copy of this metadata.
    pub fn duplicate(&self) -> (r: Self)
        ensures
            r.same_as(*self),
    {
        RunMetadata {
            run_id: self.run_id.clone(),
            workflow_type_id: self.workflow_type_id.clone(),
            config_id: self.config_id.clone(),
            status: self.status,
            created_at: self.created_at,
            updated_at: self.updated_at,
            current_step: copy_opt_string(&self.current_step),
            previous_step: copy_opt_string(&self.previous_step),
            previous_outcome: copy_opt_string(&self.previous_outcome),
            next_step_candidates: copy_strings(&self.next_step_candidates),
            log_path: copy_opt_string(&self.log_path),
            artifact_root: copy_opt_string(&self.artifact_root),
            workspace_path: copy_opt_string(&self.workspace_path),
            repository: copy_opt_string(&self.repository),
            issue_number: self.issue_number,
            pr_number: self.pr_number,
            head_sha: copy_opt_string(&self.head_sha),
            process_pid: self.process_pid,
            child_pids: copy_u32s(&self.child_pids),
            failure_cleanup: match &self.failure_cleanup {
                Some(fc) => Some(fc.duplicate()),
                None => None,
            },
        }
    }

    /// True only for an explicitly evidenced cleanup-after-failure terminal.
    pub fn is_cleanup_failure_abandonment(&self) -> (r: bool)
        ensures
            r == (self.status == RunStatus::Abandoned && match self.failure_cleanup {
                Some(fc) => fc.complete(),
                None => false,
            }),
    {
        self.status == RunStatus::Abandoned && match &self.failure_cleanup {
            Some(fc) => fc.is_complete(),
            None => false,
        }
    }

    /// Mark the run as started.
    pub fn mark_started(&mut self, now: Timestamp)
        ensures
            final(self).updated_at == Some(now),
            *final(self) == (RunMetadata { status: RunStatus::Running, updated_at: final(self).updated_at, ..*old(self) }),
    {
        self.status = RunStatus::Running;
        self.updated_at = Some(now);
    }

    /// Mark the run as completed.
    pub fn mark_completed(&mut self, now: Timestamp)
        ensures
            final(self).updated_at == Some(now),
            *final(self) == (RunMetadata { status: RunStatus::Completed, updated_at: final(self).updated_at, ..*old(self) }),
    {
        self.status = RunStatus::Completed;
        self.updated_at = Some(now);
    }

    /// Mark the run as failed.
    pub fn mark_failed(&mut self, now: Timestamp)
        ensures
            final(self).updated_at == Some(now),
            *final(self) == (RunMetadata { status: RunStatus::Failed, updated_at: final(self).updated_at, ..*old(self) }),
    {
        self.status = RunStatus::Failed;
        self.updated_at = Some(now);
    }

    /// Reopen a (possibly terminal) run for operator continuation by the
    /// process `pid`: back to `Running`, owned by `pid`, history kept.
    pub fn reopen(&mut self, pid: u32, now: Timestamp)
        ensures
            final(self).updated_at == Some(now),
            *final(self) == (RunMetadata {
                status: RunStatus::Running,
                process_pid: Some(pid),
                updated_at: final(self).updated_at,
                ..*old(self)
            }),
    {
        self.status = RunStatus::Running;
        self.process_pid = Some(pid);
        self.updated_at = Some(now);
    }

    /// Update the current step.
    pub fn set_current_step(&mut self, step: &str, now: Timestamp)
        ensures
            final(self).updated_at == Some(now),
            final(self).current_step matches Some(s) && s@ == step@,
            *final(self) == (RunMetadata {
                current_step: final(self).current_step,
                updated_at: final(self).updated_at,
                ..*old(self)
            }),
    {
        self.current_step = Some(owned(step));
        self.updated_at = Some(now);
    }

    /// Record the previous step and its outcome.
    pub fn set_previous_step_and_outcome(&mut self, step: &str, outcome: &str, now: Timestamp)
        ensures
            final(self).updated_at == Some(now),
            final(self).previous_step matches Some(s) && s@ == step@,
            final(self).previous_outcome matches Some(o) && o@ == outcome@,
            *final(self) == (RunMetadata {
                previous_step: final(self).previous_step,
                previous_outcome: final(self).previous_outcome,
                updated_at: final(self).updated_at,
                ..*old(self)
            }),
    {
        self.previous_step = Some(owned(step));
        self.previous_outcome = Some(owned(outcome));
        self.updated_at = Some(now);
    }

    /// Record the candidate next steps.
    pub fn set_next_step_candidates(&mut self, candidates: Vec<String>, now: Timestamp)
        ensures
            final(self).updated_at == Some(now),
            *final(self) == (RunMetadata {
                next_step_candidates: candidates,
                updated_at: final(self).updated_at,
                ..*old(self)
            }),
    {
        self.next_step_candidates = candidates;
        self.updated_at = Some(now);
    }

    /// Add a child process PID, once.
    pub fn add_child_pid(&mut self, pid: u32, now: Timestamp)
        ensures
            final(self).updated_at == Some(now),
            final(self).child_pids@ == if old(self).child_pids@.contains(pid) {
                old(self).child_pids@
            } else {
                old(self).child_pids@.push(pid)
            },
            *final(self) == (RunMetadata {
                child_pids: final(self).child_pids,
                updated_at: final(self).updated_at,
                ..*old(self)
            }),
    {
        let mut found = false;
        let mut i: usize = 0;
        while i < self.child_pids.len()
            invariant
                i <= self.child_pids@.len(),
                found == (exists|j: int| 0 <= j < i && self.child_pids@[j] == pid),
            decreases self.child_pids@.len() - i,
        {
            if self.child_pids[i] == pid {
                found = true;
            }
            i = i + 1;
        }
        if !found {
            self.child_pids.push(pid);
        }
        self.updated_at = Some(now);
    }

    /// Clear all recorded child PIDs.
    pub fn clear_child_pids(&mut self, now: Timestamp)
        ensures
            final(self).updated_at == Some(now),
            final(self).child_pids@.len() == 0,
            *final(self) == (RunMetadata {
                child_pids: final(self).child_pids,
                updated_at: final(self).updated_at,
                ..*old(self)
            }),
    {
        self.child_pids.clear();
        self.updated_at = Some(now);
    }
}

/// Law: a recorded child PID appears once, however often it is added.
pub proof fn lemma_child_pids_stay_distinct(before: Seq<u32>, pid: u32)
    requires
        before.no_duplicates(),
    ensures
        (if before.contains(pid) { before } else { before.push(pid) }).no_duplicates(),
        (if before.contains(pid) { before } else { before.push(pid) }).contains(pid),
{
    if !before.contains(pid) {
        assert(before.push(pid)[before.len() as int] == pid);
    }
}

/// How a JSON string writes one character: the quote and the backslash
/// behind a backslash, the control characters in their short form where
/// JSON has one and else as `\u00` with two lowercase hex digits, every
/// other character as it is.
pub open spec fn json_escaped(c: char) -> Seq<char> {
    let code = c as int;
    if c == '"' {
        seq!['\\', '"']
    } else if c == '\\' {
        seq!['\\', '\\']
    } else if code == 8 {
        seq!['\\', 'b']
    } else if code == 9 {
        seq!['\\', 't']
    } else if code == 10 {
        seq!['\\', 'n']
    } else if code == 12 {
        seq!['\\', 'f']
    } else if code == 13 {
        seq!['\\', 'r']
    } else if code < 32 {
        seq!['\\', 'u', '0', '0', hex_char(code / 16), hex_char(code % 16)]
    } else {
        seq![c]
    }
}

/// The JSON text of a string: its characters, escaped, in double quotes.
pub open spec fn json_string(s: Seq<char>) -> Seq<char> {
    seq!['"'] + s.map_values(|c: char| json_escaped(c)).flatten() + seq!['"']
}

/// The compact JSON text of a list of strings: each as a JSON string,
/// separated by commas, in brackets.
pub open spec fn json_string_array(items: Seq<Seq<char>>) -> Seq<char> {
    "["@ + joined(items.map_values(|s: Seq<char>| json_string(s)), ","@) + "]"@
}

/// The list of strings `serde_json::from_str` reads from a text, or `None`
/// when the text is not a JSON array of strings.
pub uninterp spec fn parsed_json_string_array(text: Seq<char>) -> Option<Seq<Seq<char>>>;

/// The list of `u32` values `serde_json::from_str` reads from a text, or
/// `None` when the text is not a JSON array of such numbers.
pub uninterp spec fn parsed_json_u32_array(text: Seq<char>) -> Option<Seq<u32>>;

/// The JSON text of a list of numbers: each in decimal, separated by commas,
/// in brackets.
pub open spec fn json_u32_array(items: Seq<u32>) -> Seq<char> {
    "["@ + joined(items.map_values(|n: u32| decimal(n as nat)), ","@) + "]"@
}

/// Calls `serde_json::to_string` on a list of strings; claims the compact
/// form [`json_string_array`]: each string in quotes with serde_json's
/// escapes, separated by commas, in brackets. serde_json fails only for a
/// `Serialize` impl that fails or a map with non-string keys, so a list of
/// strings always serializes.
#[verifier::external_body]
fn strings_to_json(list: &[String]) -> (r: Option<String>)
    ensures
        r is Some,
        r.unwrap()@ == json_string_array(string_views(list@)),
{
    serde_json::to_string(list).ok()
}

/// Calls `serde_json::to_string` on a list of `u32`; claims the compact
/// form: the decimal numbers separated by commas, in brackets
/// ([`json_u32_array`]), which always serializes.
#[verifier::external_body]
fn u32s_to_json(list: &[u32]) -> (r: Option<String>)
    ensures
        r is Some,
        r.unwrap()@ == json_u32_array(list@),
{
    serde_json::to_string(list).ok()
}

/// Calls `serde_json::from_str` for a list of strings; claims the result is
/// [`parsed_json_string_array`] of the text, and that the text serde_json
/// writes for a list of strings reads back as that list.
#[verifier::external_body]
fn json_to_strings(text: &str) -> (r: Option<Vec<String>>)
    ensures
        parsed_json_string_array(text@) == match r {
            Some(v) => Some(string_views(v@)),
            None => None,
        },
        match r {
            Some(v) => forall|items: Seq<Seq<char>>|
                text@ == #[trigger] json_string_array(items) ==> string_views(v@) == items,
            None => forall|items: Seq<Seq<char>>| text@ != #[trigger] json_string_array(items),
        },
{
    serde_json::from_str::<Vec<String>>(text).ok()
}

/// Calls `serde_json::from_str` for a list of `u32`; claims the result is
/// [`parsed_json_u32_array`] of the text, and that the text serde_json writes
/// for a list of numbers reads back as that list.
#[verifier::external_body]
fn json_to_u32s(text: &str) -> (r: Option<Vec<u32>>)
    ensures
        parsed_json_u32_array(text@) == match r {
            Some(v) => Some(v@),
            None => None,
        },
        match r {
            Some(v) => forall|items: Seq<u32>| text@ == #[trigger] json_u32_array(items) ==> v@ == items,
            None => forall|items: Seq<u32>| text@ != #[trigger] json_u32_array(items),
        },
{
    serde_json::from_str::<Vec<u32>>(text).ok()
}

/// Serializes a list of strings to a JSON array string.
pub fn serialize_string_list(list: &[String]) -> (r: String)
    ensures
        r@ == json_string_array(string_views(list@)),
{
    match strings_to_json(list) {
        Some(t) => t,
        None => owned("[]"),
    }
}

/// The strings a stored list column holds: those of its JSON array, or none
/// when the column is absent or not such an array.
pub open spec fn stored_string_list(raw: Option<String>) -> Seq<Seq<char>> {
    match raw {
        Some(text) => match parsed_json_string_array(text@) {
            Some(items) => items,
            None => Seq::empty(),
        },
        None => Seq::<Seq<char>>::empty(),
    }
}

/// The pids a stored list column holds: those of its JSON array, or none
/// when the column is absent or not such an array.
pub open spec fn stored_pid_list(raw: Option<String>) -> Seq<u32> {
    match raw {
        Some(text) => match parsed_json_u32_array(text@) {
            Some(items) => items,
            None => Seq::empty(),
        },
        None => Seq::<u32>::empty(),
    }
}

/// Deserializes a JSON array string into a list of strings; an absent or
/// unreadable value gives the empty list.
///
/// Law: a list written by [`serialize_string_list`] reads back as itself.
pub fn deserialize_string_list(raw: Option<String>) -> (r: Vec<String>)
    ensures
        string_views(r@) == stored_string_list(raw),
        forall|items: Seq<Seq<char>>|
            (raw matches Some(t) && t@ == #[trigger] json_string_array(items)) ==> string_views(r@) == items,
{
    match raw {
        Some(text) => match json_to_strings(text.as_str()) {
            Some(v) => v,
            None => {
                let v: Vec<String> = Vec::new();
                assert(string_views(v@) =~= Seq::<Seq<char>>::empty());
                v
            },
        },
        None => {
            let v: Vec<String> = Vec::new();
            assert(string_views(v@) =~= Seq::<Seq<char>>::empty());
            v
        },
    }
}

/// Serializes a list of pids to a JSON array string.
pub fn serialize_pid_list(list: &[u32]) -> (r: String)
    ensures
        r@ == json_u32_array(list@),
{
    match u32s_to_json(list) {
        Some(t) => t,
        None => owned("[]"),
    }
}

/// Deserializes a JSON array string into a list of pids; an absent or
/// unreadable value gives the empty list.
///
/// Law: a list written by [`serialize_pid_list`] reads back as itself.
pub fn deserialize_pid_list(raw: Option<String>) -> (r: Vec<u32>)
    ensures
        r@ == stored_pid_list(raw),
        forall|items: Seq<u32>| (raw matches Some(t) && t@ == #[trigger] json_u32_array(items)) ==> r@ == items,
{
    match raw {
        Some(text) => match json_to_u32s(text.as_str()) {
            Some(v) => v,
            None => Vec::new(),
        },
        None => Vec::new(),
    }
}

} // verus!
