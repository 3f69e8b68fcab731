//! Append-only recovery attempt rows, each carrying the complete state
//! snapshot of the step it recovers, and the test that a row's snapshot
//! bytes still hash to the digest recorded with them.

use vstd::prelude::*;
use crate::digest::{sha256_hex, sha256_hex_spec};
use crate::persistence::checkpoint::StateSnapshot;
use crate::text::{owned, push_i64, push_str, signed_decimal, string_eq};
use crate::time::Timestamp;

verus! {

/// Table name for the append-only recovery attempt rows.
pub const RECOVERY_ATTEMPTS_TABLE: &'static str = "recovery_attempts";

/// A row in the append-only recovery attempts table.
#[derive(Debug, Clone)]
pub struct AttemptRow {
    /// Monotonic append-only primary key.
    pub attempt_id: i64,
    /// The run this attempt is for.
    pub run_id: String,
    /// The epoch at which this attempt was reserved.
    pub epoch: u64,
    /// Parent attempt this recovers from (`None` for a fresh run).
    pub source_attempt_id: Option<i64>,
    /// Bound to the recovery operation.
    pub operation_id: String,
    /// The step this attempt targets.
    pub step_id: String,
    /// `'started'|'resumed'|'interrupted'|'completed'|'failed'`.
    pub step_status: String,
    /// Capsule schema version (exact capsule binding).
    pub capsule_schema_version: u32,
    /// Exact capsule binding (envelope digest).
    pub capsule_envelope_digest: String,
    /// Complete workflow state at this attempt.
    pub state_snapshot: StateSnapshot,
    /// The exact canonical JSON bytes stored for `state_snapshot`.
    pub state_snapshot_json: Vec<u8>,
    /// SHA-256 of the canonical `state_snapshot` JSON.
    pub snapshot_digest: String,
    /// Digest of a referenced checkpoint (`None` if none).
    pub checkpoint_digest: Option<String>,
    /// Durable runner result (recoverable after a crash).
    pub runner_result_json: Option<serde_json::Value>,
    /// Attempt-start time.
    pub started_at: Timestamp,
    /// `None` until the outcome is appended.
    pub finalized_at: Option<Timestamp>,
}

/// A stored snapshot whose bytes no longer hash to the recorded digest.
#[derive(Debug, Clone, PartialEq, Eq)]
pub struct SnapshotDigestMismatch {
    pub attempt_id: i64,
    pub stored: String,
    pub recomputed: String,
}

impl SnapshotDigestMismatch {
    /// The diagnostic text: the attempt, the stored and the recomputed digest.
    pub fn to_string(&self) -> (r: String)
        ensures
            r@ == "snapshot_digest mismatch for attempt "@ + signed_decimal(self.attempt_id as int)
                + " (stored "@ + self.stored@ + ", recomputed "@ + self.recomputed@ + ")"@,
    {
        let mut s = owned("snapshot_digest mismatch for attempt ");
        push_i64(&mut s, self.attempt_id);
        push_str(&mut s, " (stored ");
        push_str(&mut s, self.stored.as_str());
        push_str(&mut s, ", recomputed ");
        push_str(&mut s, self.recomputed.as_str());
        push_str(&mut s, ")");
        assert(s@ =~= "snapshot_digest mismatch for attempt "@ + signed_decimal(self.attempt_id as int)
            + " (stored "@ + self.stored@ + ", recomputed "@ + self.recomputed@ + ")"@);
        s
    }
}

/// Recomputes the SHA-256 over the exact stored snapshot bytes and checks it
/// against the recorded digest; a difference is reported with both digests.
pub fn verify_snapshot_digest(row: &AttemptRow) -> (r: Result<(), SnapshotDigestMismatch>)
    ensures
        r is Ok <==> sha256_hex_spec(row.state_snapshot_json@) == row.snapshot_digest@,
        r matches Err(e) ==> e.attempt_id == row.attempt_id && e.stored@ == row.snapshot_digest@
            && e.recomputed@ == sha256_hex_spec(row.state_snapshot_json@),
{
    let recomputed = sha256_hex(row.state_snapshot_json.as_slice());
    if !string_eq(&recomputed, &row.snapshot_digest) {
        return Err(
            SnapshotDigestMismatch {
                attempt_id: row.attempt_id,
                stored: row.snapshot_digest.clone(),
                recomputed,
            },
        );
    }
    Ok(())
}

} // verus!
