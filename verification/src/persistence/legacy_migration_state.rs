//! The durable state machine of a legacy ownership migration:
//! `(absent) -> pending -> completed`, with exactly-once completion.

use vstd::prelude::*;
use crate::text::str_eq;
use crate::time::Timestamp;

verus! {

/// Table name for the durable migration state machine.
pub const LEGACY_MIGRATION_TABLE: &'static str = "legacy_ownership_migrations";

/// The durable status of a legacy ownership migration.
#[derive(Debug, Clone, Copy, PartialEq, Eq, Structural)]
pub enum MigrationStatus {
    /// Intent persisted; marker publication and/or completion not yet durable.
    Pending,
    /// Marker published, audit recorded, provenance tagged.
    Completed,
}

impl MigrationStatus {
    /// The string stored in the `status` column.
    pub open spec fn label(self) -> Seq<char> {
        match self {
            MigrationStatus::Pending => "pending"@,
            MigrationStatus::Completed => "completed"@,
        }
    }

    /// The status a stored string denotes, if any.
    pub open spec fn from_label(s: Seq<char>) -> Option<MigrationStatus> {
        if s == "pending"@ {
            Some(MigrationStatus::Pending)
        } else if s == "completed"@ {
            Some(MigrationStatus::Completed)
        } else {
            None
        }
    }

    /// The string stored in the `status` column.
    pub fn as_str(&self) -> (r: &'static str)
        ensures
            r@ == self.label(),
    {
        match self {
            MigrationStatus::Pending => "pending",
            MigrationStatus::Completed => "completed",
        }
    }

    /// Parse a persisted status string, `None` for unknown values.
    pub fn parse_str(s: &str) -> (r: Option<Self>)
        ensures
            r == Self::from_label(s@),
    {
        if str_eq(s, "pending") {
            Some(MigrationStatus::Pending)
        } else if str_eq(s, "completed") {
            Some(MigrationStatus::Completed)
        } else {
            None
        }
    }
}

/// Law: every migration status parses back from its stored string.
pub proof fn lemma_migration_status_round_trip(status: MigrationStatus)
    ensures
        MigrationStatus::from_label(status.label()) == Some(status),
{
    reveal_strlit("pending");
    reveal_strlit("completed");
    assert("pending"@.len() == 7);
    assert("completed"@.len() == 9);
}

/// A row in the durable migration state table.
#[derive(Debug, Clone, PartialEq, Eq)]
pub struct MigrationStateRow {
    pub run_id: String,
    pub workspace_path: String,
    pub intent_at: Timestamp,
    pub completed_at: Option<Timestamp>,
    pub status: MigrationStatus,
}

/// Outcome of a guarded `pending -> completed` transition.
#[derive(Debug, Clone, PartialEq, Eq)]
pub enum GuardedCompletionOutcome {
    /// The row was pending and was transitioned to completed.
    Transitioned,
    /// The row was already completed: an idempotent no-op.
    AlreadyCompleted,
    /// No row exists for the run: an integrity failure.
    Missing,
}

/// Classify a guarded completion by the rows the guarded update changed and,
/// when none, the status read back.
pub fn classify_guarded_completion(updated: usize, current: Option<MigrationStatus>) -> (r: GuardedCompletionOutcome)
    ensures
        updated > 0 ==> r == GuardedCompletionOutcome::Transitioned,
        updated == 0 ==> r == (if current == Some(MigrationStatus::Completed) {
            GuardedCompletionOutcome::AlreadyCompleted
        } else {
            GuardedCompletionOutcome::Missing
        }),
{
    if updated > 0 {
        return GuardedCompletionOutcome::Transitioned;
    }
    match current {
        Some(MigrationStatus::Completed) => GuardedCompletionOutcome::AlreadyCompleted,
        _ => GuardedCompletionOutcome::Missing,
    }
}

/// Whether a loaded migration row is durably completed: the only state a
/// resume may trust.
pub fn is_durably_completed(row: &Option<MigrationStateRow>) -> (r: bool)
    ensures
        r == (row matches Some(x) && x.status == MigrationStatus::Completed),
{
    match row {
        Some(x) => x.status == MigrationStatus::Completed,
        None => false,
    }
}

/// Whether a loaded migration row is still pending: a state that blocks a
/// resume.
pub fn is_pending(row: &Option<MigrationStateRow>) -> (r: bool)
    ensures
        r == (row matches Some(x) && x.status == MigrationStatus::Pending),
{
    match row {
        Some(x) => x.status == MigrationStatus::Pending,
        None => false,
    }
}

/// Law: no migration row is both trusted as completed and blocking as
/// pending.
pub proof fn lemma_completed_and_pending_exclusive(row: Option<MigrationStateRow>)
    ensures
        !((row matches Some(x) && x.status == MigrationStatus::Completed) && (row matches Some(x)
            && x.status == MigrationStatus::Pending)),
{
}

} // verus!
