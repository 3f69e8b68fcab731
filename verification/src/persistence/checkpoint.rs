//! Checkpoints and the append-only event log: the state a step resumes
//! from, which checkpoint statuses are resumable, and the typed events.

use vstd::prelude::*;
use crate::text::{owned, push_str, str_eq};
use crate::time::Timestamp;

verus! {

/// `serde_json::Value`, carried through opaquely (checkpoint context values).
#[verifier::external_type_specification]
#[verifier::external_body]
pub struct ExJsonValue(serde_json::Value);

/// `std::io::Error`, carried through opaquely.
#[verifier::external_type_specification]
#[verifier::external_body]
pub struct ExIoError(std::io::Error);

/// Errors that can occur during checkpoint persistence.
#[derive(Debug)]
pub enum PersistenceError {
    Database(String),
    Serialization(String),
    NotFound(String),
    Io(std::io::Error),
}

/// Calls `ToString::to_string` on an I/O error (its `Display`). Nothing is
/// claimed of the text.
#[verifier::external_body]
fn io_error_text(e: &std::io::Error) -> String {
    e.to_string()
}

impl PersistenceError {
    /// The error message: the kind, then its context.
    pub fn to_string(&self) -> (r: String)
        ensures
            match self {
                PersistenceError::Database(m) => r@ == "database error: "@ + m@,
                PersistenceError::Serialization(m) => r@ == "serialization error: "@ + m@,
                PersistenceError::NotFound(m) => r@ == "checkpoint not found: "@ + m@,
                PersistenceError::Io(_) => r@.len() >= "IO error: "@.len()
                    && r@.subrange(0, "IO error: "@.len() as int) == "IO error: "@,
            },
    {
        match self {
            PersistenceError::Database(m) => {
                let mut s = owned("database error: ");
                push_str(&mut s, m.as_str());
                s
            },
            PersistenceError::Serialization(m) => {
                let mut s = owned("serialization error: ");
                push_str(&mut s, m.as_str());
                s
            },
            PersistenceError::NotFound(m) => {
                let mut s = owned("checkpoint not found: ");
                push_str(&mut s, m.as_str());
                s
            },
            PersistenceError::Io(e) => {
                let mut s = owned("IO error: ");
                let text = io_error_text(e);
                push_str(&mut s, text.as_str());
                assert(s@.subrange(0, "IO error: "@.len() as int) =~= "IO error: "@);
                s
            },
        }
    }
}

/// Checkpoint status recorded when a step pauses on an external wait.
pub const CHECKPOINT_STATUS_WAITING: &'static str = "waiting";

/// Checkpoint status recorded when a run is interrupted mid-step.
pub const CHECKPOINT_STATUS_INTERRUPTED: &'static str = "interrupted";

/// Checkpoint status stamped when a checkpoint is selected as resume point.
pub const CHECKPOINT_STATUS_READY_TO_RESUME: &'static str = "ready_to_resume";

/// Whether a checkpoint status denotes a resumable state.
pub open spec fn resumable_checkpoint_status(status: Seq<char>) -> bool {
    status == "waiting"@ || status == "interrupted"@ || status == "ready_to_resume"@
}

/// Returns true when the checkpoint status denotes a resumable state
/// (waiting, interrupted, or explicitly re-armed).
pub fn is_resumable_checkpoint_status(status: &str) -> (r: bool)
    ensures
        r == resumable_checkpoint_status(status@),
{
    str_eq(status, CHECKPOINT_STATUS_WAITING) || str_eq(status, CHECKPOINT_STATUS_INTERRUPTED) || str_eq(
        status,
        CHECKPOINT_STATUS_READY_TO_RESUME,
    )
}

/// Snapshot of workflow execution state.
#[derive(Debug, Clone, PartialEq, Eq)]
pub struct StateSnapshot {
    /// Current retry count for the current step.
    pub retry_count: u32,
    /// Remediation loop counter.
    pub loop_count: u32,
    /// Per-edge loop counts keyed by "from:to" step pair.
    pub edge_loop_counts: std::collections::HashMap<String, u32>,
    /// Additional context data (step-specific state).
    pub context: std::collections::HashMap<String, serde_json::Value>,
    /// Status of the checkpoint (e.g. "completed", "interrupted").
    pub status: String,
}

impl Default for StateSnapshot {
    fn default() -> (r: Self)
        ensures
            r.retry_count == 0,
            r.loop_count == 0,
            r.edge_loop_counts@ == Map::<String, u32>::empty(),
            r.context@ == Map::<String, serde_json::Value>::empty(),
            r.status@ == "running"@,
    {
        StateSnapshot {
            retry_count: 0,
            loop_count: 0,
            edge_loop_counts: std::collections::HashMap::new(),
            context: std::collections::HashMap::new(),
            status: owned("running"),
        }
    }
}

impl StateSnapshot {
    /// Whether two snapshots hold the same counters, maps and status.
    pub open spec fn same_as(self, other: StateSnapshot) -> bool {
        &&& self.retry_count == other.retry_count
        &&& self.loop_count == other.loop_count
        &&& self.edge_loop_counts@ == other.edge_loop_counts@
        &&& self.context@ == other.context@
        &&& self.status == other.status
    }

    /// A copy of this snapshot.
    pub fn duplicate(&self) -> (r: Self)
        ensures
            r.same_as(*self),
    {
        StateSnapshot {
            retry_count: self.retry_count,
            loop_count: self.loop_count,
            edge_loop_counts: self.edge_loop_counts.clone(),
            context: self.context.clone(),
            status: self.status.clone(),
        }
    }
}

/// A checkpoint capturing the state of a workflow run at a point in time.
#[derive(Debug, Clone)]
pub struct Checkpoint {
    pub run_id: String,
    pub step_id: String,
    pub state_snapshot: StateSnapshot,
    pub timestamp: Timestamp,
}

impl Checkpoint {
    /// A checkpoint for a run at a step, taken at `now`, with the default
    /// state.
    pub fn new(run_id: &str, step_id: &str, now: Timestamp) -> (r: Self)
        ensures
            r.run_id@ == run_id@,
            r.timestamp == now,
            r.step_id@ == step_id@,
            r.state_snapshot.retry_count == 0,
            r.state_snapshot.loop_count == 0,
            r.state_snapshot.edge_loop_counts@ == Map::<String, u32>::empty(),
            r.state_snapshot.context@ == Map::<String, serde_json::Value>::empty(),
            r.state_snapshot.status@ == "running"@,
    {
        Checkpoint {
            run_id: owned(run_id),
            step_id: owned(step_id),
            state_snapshot: StateSnapshot::default(),
            timestamp: now,
        }
    }

    /// A checkpoint with a specific state snapshot, taken at `now`.
    pub fn with_snapshot(run_id: &str, step_id: &str, snapshot: StateSnapshot, now: Timestamp) -> (r: Self)
        ensures
            r.run_id@ == run_id@,
            r.timestamp == now,
            r.step_id@ == step_id@,
            r.state_snapshot == snapshot,
    {
        Checkpoint { run_id: owned(run_id), step_id: owned(step_id), state_snapshot: snapshot, timestamp: now }
    }

    /// Mark this checkpoint as an interruption checkpoint, at `now`.
    pub fn mark_interrupted(&mut self, now: Timestamp)
        ensures
            final(self).timestamp == now,
            final(self).state_snapshot.status@ == "interrupted"@,
            final(self).run_id == old(self).run_id,
            final(self).step_id == old(self).step_id,
            final(self).state_snapshot == (StateSnapshot {
                status: final(self).state_snapshot.status,
                ..old(self).state_snapshot
            }),
    {
        self.state_snapshot.status = owned("interrupted");
        self.timestamp = now;
    }

    /// Mark this checkpoint as completed for the step, at `now`.
    pub fn mark_completed(&mut self, now: Timestamp)
        ensures
            final(self).timestamp == now,
            final(self).state_snapshot.status@ == "completed"@,
            final(self).run_id == old(self).run_id,
            final(self).step_id == old(self).step_id,
            final(self).state_snapshot == (StateSnapshot {
                status: final(self).state_snapshot.status,
                ..old(self).state_snapshot
            }),
    {
        self.state_snapshot.status = owned("completed");
        self.timestamp = now;
    }
}

/// The position of the first checkpoint recorded for a step, in the given
/// (timestamp) order.
pub fn checkpoint_for_step(checkpoints: &[Checkpoint], step_id: &str) -> (r: Option<usize>)
    ensures
        match r {
            Some(i) => i < checkpoints@.len() && checkpoints@[i as int].step_id@ == step_id@
                && forall|j: int| 0 <= j < i ==> checkpoints@[j].step_id@ != step_id@,
            None => forall|j: int| 0 <= j < checkpoints@.len() ==> checkpoints@[j].step_id@ != step_id@,
        },
{
    let mut i: usize = 0;
    while i < checkpoints.len()
        invariant
            i <= checkpoints@.len(),
            forall|j: int| 0 <= j < i ==> checkpoints@[j].step_id@ != step_id@,
        decreases checkpoints@.len() - i,
    {
        if str_eq(checkpoints[i].step_id.as_str(), step_id) {
            return Some(i);
        }
        i = i + 1;
    }
    None
}

/// The position of the checkpoint recorded immediately before the first
/// checkpoint of a step, if the step has one and it is not the first.
pub fn checkpoint_before_step(checkpoints: &[Checkpoint], step_id: &str) -> (r: Option<usize>)
    ensures
        match r {
            Some(i) => i + 1 < checkpoints@.len() && checkpoints@[i + 1].step_id@ == step_id@
                && forall|j: int| 0 <= j <= i ==> checkpoints@[j].step_id@ != step_id@,
            None => forall|k: int| 1 <= k < checkpoints@.len() ==> (checkpoints@[k].step_id@ == step_id@
                ==> exists|j: int| 0 <= j < k && checkpoints@[j].step_id@ == step_id@),
        },
{
    match checkpoint_for_step(checkpoints, step_id) {
        Some(idx) => {
            if idx > 0 {
                Some(idx - 1)
            } else {
                assert forall|k: int| 1 <= k < checkpoints@.len() && checkpoints@[k].step_id@ == step_id@ implies exists|
                    j: int,
                | 0 <= j < k && checkpoints@[j].step_id@ == step_id@ by {
                    assert(checkpoints@[0].step_id@ == step_id@);
                }
                None
            }
        },
        None => None,
    }
}

/// Typed lifecycle events recorded in the append-only event log.
#[derive(Debug, Clone, Copy, PartialEq, Eq, Structural)]
pub enum EventType {
    StepStart,
    StepOutcome,
    ProcessSpawn,
    ProcessExit,
    AgentSpawn,
    AgentExit,
    Error,
    TerminalState,
}

impl EventType {
    /// The snake_case string of an event type.
    pub open spec fn label(self) -> Seq<char> {
        match self {
            EventType::StepStart => "step_start"@,
            EventType::StepOutcome => "step_outcome"@,
            EventType::ProcessSpawn => "process_spawn"@,
            EventType::ProcessExit => "process_exit"@,
            EventType::AgentSpawn => "agent_spawn"@,
            EventType::AgentExit => "agent_exit"@,
            EventType::Error => "error"@,
            EventType::TerminalState => "terminal_state"@,
        }
    }

    /// The event type a string denotes, if any.
    pub open spec fn from_label(s: Seq<char>) -> Option<EventType> {
        if s == "step_start"@ {
            Some(EventType::StepStart)
        } else if s == "step_outcome"@ {
            Some(EventType::StepOutcome)
        } else if s == "process_spawn"@ {
            Some(EventType::ProcessSpawn)
        } else if s == "process_exit"@ {
            Some(EventType::ProcessExit)
        } else if s == "agent_spawn"@ {
            Some(EventType::AgentSpawn)
        } else if s == "agent_exit"@ {
            Some(EventType::AgentExit)
        } else if s == "error"@ {
            Some(EventType::Error)
        } else if s == "terminal_state"@ {
            Some(EventType::TerminalState)
        } else {
            None
        }
    }

    /// The snake_case string of this event type.
    pub fn as_str(&self) -> (r: &'static str)
        ensures
            r@ == self.label(),
    {
        match self {
            EventType::StepStart => "step_start",
            EventType::StepOutcome => "step_outcome",
            EventType::ProcessSpawn => "process_spawn",
            EventType::ProcessExit => "process_exit",
            EventType::AgentSpawn => "agent_spawn",
            EventType::AgentExit => "agent_exit",
            EventType::Error => "error",
            EventType::TerminalState => "terminal_state",
        }
    }

    /// The snake_case string as an owned string.
    pub fn to_string(&self) -> (r: String)
        ensures
            r@ == self.label(),
    {
        owned(self.as_str())
    }

    /// Parse an event type; an unknown string is refused with
    /// `Unknown event type: <s>`.
    pub fn parse_str(s: &str) -> (r: Result<EventType, String>)
        ensures
            match Self::from_label(s@) {
                Some(t) => r == Ok::<EventType, String>(t),
                None => r matches Err(msg) && msg@ == "Unknown event type: "@ + s@,
            },
    {
        if str_eq(s, "step_start") {
            Ok(EventType::StepStart)
        } else if str_eq(s, "step_outcome") {
            Ok(EventType::StepOutcome)
        } else if str_eq(s, "process_spawn") {
            Ok(EventType::ProcessSpawn)
        } else if str_eq(s, "process_exit") {
            Ok(EventType::ProcessExit)
        } else if str_eq(s, "agent_spawn") {
            Ok(EventType::AgentSpawn)
        } else if str_eq(s, "agent_exit") {
            Ok(EventType::AgentExit)
        } else if str_eq(s, "error") {
            Ok(EventType::Error)
        } else if str_eq(s, "terminal_state") {
            Ok(EventType::TerminalState)
        } else {
            let mut msg = owned("Unknown event type: ");
            push_str(&mut msg, s);
            Err(msg)
        }
    }
}

impl std::str::FromStr for EventType {
    type Err = String;

    fn from_str(s: &str) -> (r: Result<Self, Self::Err>)
        ensures
            match EventType::from_label(s@) {
                Some(t) => r == Ok::<EventType, String>(t),
                None => r matches Err(msg) && msg@ == "Unknown event type: "@ + s@,
            },
    {
        EventType::parse_str(s)
    }
}

/// Law: every event type parses back from its string.
pub proof fn lemma_event_type_round_trip(t: EventType)
    ensures
        EventType::from_label(t.label()) == Some(t),
{
    reveal_strlit("step_start");
    reveal_strlit("step_outcome");
    reveal_strlit("process_spawn");
    reveal_strlit("process_exit");
    reveal_strlit("agent_spawn");
    reveal_strlit("agent_exit");
    reveal_strlit("error");
    reveal_strlit("terminal_state");
    assert("step_start"@.len() == 10);
    assert("step_outcome"@.len() == 12);
    assert("process_spawn"@.len() == 13);
    assert("process_exit"@.len() == 12);
    assert("agent_spawn"@.len() == 11);
    assert("agent_exit"@.len() == 10);
    assert("error"@.len() == 5);
    assert("terminal_state"@.len() == 14);
    assert("step_start"@[0] != "agent_exit"@[0]);
    assert("step_outcome"@[0] != "process_exit"@[0]);
}

/// Event record for step completion and lifecycle events.
#[derive(Debug, Clone)]
pub struct EventRecord {
    pub run_id: String,
    pub step_id: String,
    pub outcome: String,
    /// Typed event classification (snake_case string).
    pub event_type: String,
    /// Optional free-form details.
    pub details: Option<String>,
    pub timestamp: Timestamp,
}

} // verus!
