//! Supervision of workflow runs: heartbeats, the status protocol, restart
//! policy and backoff, and the monitor's snapshot of daemons and runs.

pub mod heartbeat;
pub mod ipc;
pub mod process;
pub mod snapshot;

use vstd::prelude::*;

verus! {

/// Action to take when the monitor enters the degraded state.
#[derive(Debug, Clone, Copy, PartialEq, Eq, Structural)]
pub enum DegradedAction {
    AlertAndWait,
    AlertAndContinue,
    Shutdown,
}

impl DegradedAction {
    /// Whether this action raises an alert: waiting or continuing does,
    /// shutting down does not.
    pub fn requires_alert(&self) -> (r: bool)
        ensures
            r == (*self == DegradedAction::AlertAndWait || *self == DegradedAction::AlertAndContinue),
    {
        match self {
            DegradedAction::AlertAndWait | DegradedAction::AlertAndContinue => true,
            DegradedAction::Shutdown => false,
        }
    }

    /// Whether new work is still accepted: only when continuing.
    pub fn allows_new_work(&self) -> (r: bool)
        ensures
            r == (*self == DegradedAction::AlertAndContinue),
    {
        match self {
            DegradedAction::AlertAndContinue => true,
            _ => false,
        }
    }
}

/// The integer part of restart tracking: how many restarts were recorded
/// against the policy's limit. (The policy's floating-point backoff stays
/// with its owner.)
#[derive(Debug, Clone, Copy, PartialEq, Eq, Structural)]
pub struct RestartCounter {
    pub max_restarts: u32,
    pub restart_count: u32,
}

impl RestartCounter {
    /// No restarts recorded yet against a limit of `max_restarts`.
    pub fn new(max_restarts: u32) -> (r: Self)
        ensures
            r.max_restarts == max_restarts,
            r.restart_count == 0,
    {
        RestartCounter { max_restarts, restart_count: 0 }
    }

    /// Records one restart.
    pub fn record_restart(&mut self)
        requires
            old(self).restart_count < u32::MAX,
        ensures
            final(self).restart_count == old(self).restart_count + 1,
            final(self).max_restarts == old(self).max_restarts,
    {
        self.restart_count = self.restart_count + 1;
    }

    /// Whether the monitor should enter the degraded state: the recorded
    /// restarts have reached the limit.
    pub fn should_enter_degraded(&self) -> (r: bool)
        ensures
            r == (self.restart_count >= self.max_restarts),
    {
        self.restart_count >= self.max_restarts
    }

    /// The action taken once degraded: alert and wait.
    pub fn get_degraded_action(&self) -> (r: DegradedAction)
        ensures
            r == DegradedAction::AlertAndWait,
    {
        DegradedAction::AlertAndWait
    }
}

/// Law: once degraded, recording more restarts keeps the monitor degraded.
pub proof fn lemma_degraded_stays(before: RestartCounter, after: RestartCounter)
    requires
        before.restart_count >= before.max_restarts,
        after.max_restarts == before.max_restarts,
        after.restart_count >= before.restart_count,
    ensures
        after.restart_count >= after.max_restarts,
{
}

} // verus!
