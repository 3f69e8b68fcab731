//! The per-run recovery epoch and its compare-and-swap advancement.

use vstd::prelude::*;

verus! {

/// Table name for the durable recovery epoch.
pub const RECOVERY_EPOCH_TABLE: &'static str = "recovery_epoch";

/// The outcome of a compare-and-swap epoch advancement.
#[derive(Debug, Clone, PartialEq, Eq)]
pub enum CasOutcome {
    /// The epoch was advanced from `from` to `to`.
    Advanced { from: u64, to: u64 },
    /// A concurrent claim advanced the epoch away from `expected`; `persisted`
    /// is the current durable epoch.
    Stale { persisted: u64, expected: u64 },
}

/// The epoch written by an advance from `expected` (saturating at the top).
pub open spec fn next_epoch(expected: u64) -> u64 {
    if expected < u64::MAX { (expected + 1) as u64 } else { expected }
}

/// The epoch value the advance writes.
pub fn next_epoch_value(expected_epoch: u64) -> (r: u64)
    ensures
        r == next_epoch(expected_epoch),
{
    match expected_epoch.checked_add(1) {
        Some(n) => n,
        None => expected_epoch,
    }
}

/// Classify the guarded advance by the rows it changed: none means another
/// claim won and the persisted epoch is reported.
pub fn cas_outcome(affected: usize, expected_epoch: u64, persisted: u64) -> (r: CasOutcome)
    ensures
        affected == 0 ==> r == (CasOutcome::Stale { persisted, expected: expected_epoch }),
        affected != 0 ==> r == (CasOutcome::Advanced { from: expected_epoch, to: next_epoch(expected_epoch) }),
{
    if affected == 0 {
        CasOutcome::Stale { persisted, expected: expected_epoch }
    } else {
        CasOutcome::Advanced { from: expected_epoch, to: next_epoch_value(expected_epoch) }
    }
}

/// The epoch read from its row: 0 when there is no row or the stored value
/// is negative.
pub fn epoch_from_row(stored: Option<i64>) -> (r: u64)
    ensures
        r == match stored {
            Some(e) => if e >= 0 { e as u64 } else { 0 },
            None => 0,
        },
{
    match stored {
        Some(e) => if e >= 0 { e as u64 } else { 0 },
        None => 0,
    }
}

/// Law: a successful advance moves the epoch forward by exactly one.
pub proof fn lemma_advance_is_successor(expected: u64)
    requires
        expected < u64::MAX,
    ensures
        next_epoch(expected) == expected + 1,
{
}

} // verus!
