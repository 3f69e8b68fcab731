//! Monitor heartbeats: the state a monitor reports, the heartbeat record and
//! where it is stored.

use vstd::prelude::*;
use crate::text::{opt_chars, owned, push_str};
use crate::time::Timestamp;

verus! {

/// Monitor state enumeration.
#[derive(Debug, Clone, Copy, PartialEq, Eq, Structural)]
pub enum MonitorState {
    Starting,
    Running,
    Degraded,
    Stopping,
    Stopped,
    Error,
}

impl MonitorState {
    /// The stable lowercase token of a state.
    pub open spec fn label(self) -> Seq<char> {
        match self {
            MonitorState::Starting => "starting"@,
            MonitorState::Running => "running"@,
            MonitorState::Degraded => "degraded"@,
            MonitorState::Stopping => "stopping"@,
            MonitorState::Stopped => "stopped"@,
            MonitorState::Error => "error"@,
        }
    }

    /// The stable lowercase token of this state.
    pub fn as_str(&self) -> (r: &'static str)
        ensures
            r@ == self.label(),
    {
        match self {
            MonitorState::Starting => "starting",
            MonitorState::Running => "running",
            MonitorState::Degraded => "degraded",
            MonitorState::Stopping => "stopping",
            MonitorState::Stopped => "stopped",
            MonitorState::Error => "error",
        }
    }

    /// The name of the state's variant, as its derived `Debug` writes it.
    pub open spec fn variant_name(self) -> Seq<char> {
        match self {
            MonitorState::Starting => "Starting"@,
            MonitorState::Running => "Running"@,
            MonitorState::Degraded => "Degraded"@,
            MonitorState::Stopping => "Stopping"@,
            MonitorState::Stopped => "Stopped"@,
            MonitorState::Error => "Error"@,
        }
    }

    /// The name of this state's variant.
    pub fn variant_name_str(&self) -> (r: &'static str)
        ensures
            r@ == self.variant_name(),
    {
        match self {
            MonitorState::Starting => "Starting",
            MonitorState::Running => "Running",
            MonitorState::Degraded => "Degraded",
            MonitorState::Stopping => "Stopping",
            MonitorState::Stopped => "Stopped",
            MonitorState::Error => "Error",
        }
    }

    /// The stable lowercase token as an owned string.
    pub fn to_string(&self) -> (r: String)
        ensures
            r@ == self.label(),
    {
        owned(self.as_str())
    }
}

/// Heartbeat metadata from a monitor.
#[derive(Debug, Clone)]
pub struct Heartbeat {
    /// Unique instance identifier.
    pub instance_id: String,
    /// When the heartbeat was generated (Unix epoch seconds).
    pub timestamp: i64,
    /// Uptime in seconds.
    pub uptime_secs: i64,
    /// Version identifier.
    pub version: i32,
    /// Current monitor state.
    pub state: MonitorState,
    /// Active worker count.
    pub active_workers: u32,
    /// Run ID if applicable.
    pub run_id: Option<String>,
    /// Additional metadata.
    pub metadata: std::collections::HashMap<String, String>,
}

impl Heartbeat {
    /// Whether two heartbeats hold the same values, strings and metadata
    /// compared by content.
    pub open spec fn same_as(self, other: Heartbeat) -> bool {
        &&& self.instance_id@ == other.instance_id@
        &&& self.timestamp == other.timestamp
        &&& self.uptime_secs == other.uptime_secs
        &&& self.version == other.version
        &&& self.state == other.state
        &&& self.active_workers == other.active_workers
        &&& opt_chars(self.run_id) == opt_chars(other.run_id)
        &&& self.metadata@ == other.metadata@
    }

    /// A copy of this heartbeat.
    pub fn duplicate(&self) -> (r: Heartbeat)
        ensures
            r.same_as(*self),
    {
        Heartbeat {
            instance_id: self.instance_id.clone(),
            timestamp: self.timestamp,
            uptime_secs: self.uptime_secs,
            version: self.version,
            state: self.state,
            active_workers: self.active_workers,
            run_id: match &self.run_id {
                Some(id) => Some(id.clone()),
                None => None,
            },
            metadata: self.metadata.clone(),
        }
    }

    /// A fresh heartbeat of a starting instance, stamped with the seconds of
    /// `now`.
    pub fn new(instance_id: &str, now: Timestamp) -> (r: Self)
        ensures
            r.timestamp == now.secs,
            r.instance_id@ == instance_id@,
            r.uptime_secs == 0,
            r.version == 1,
            r.state == MonitorState::Starting,
            r.active_workers == 0,
            r.run_id is None,
            r.metadata@ == Map::<String, String>::empty(),
    {
        Heartbeat {
            instance_id: owned(instance_id),
            timestamp: now.secs,
            uptime_secs: 0,
            version: 1,
            state: MonitorState::Starting,
            active_workers: 0,
            run_id: None,
            metadata: std::collections::HashMap::new(),
        }
    }

    /// Set the run ID.
    pub fn with_run_id(self, run_id: &str) -> (r: Self)
        ensures
            r.run_id matches Some(id) && id@ == run_id@,
            r == (Heartbeat { run_id: r.run_id, ..self }),
    {
        Heartbeat { run_id: Some(owned(run_id)), ..self }
    }

    /// Set the state.
    pub fn with_state(self, state: MonitorState) -> (r: Self)
        ensures
            r == (Heartbeat { state, ..self }),
    {
        Heartbeat { state, ..self }
    }

    /// Set the uptime.
    pub fn with_uptime(self, uptime_secs: i64) -> (r: Self)
        ensures
            r == (Heartbeat { uptime_secs, ..self }),
    {
        Heartbeat { uptime_secs, ..self }
    }

    /// Set the active worker count.
    pub fn with_active_workers(self, count: u32) -> (r: Self)
        ensures
            r == (Heartbeat { active_workers: count, ..self }),
    {
        Heartbeat { active_workers: count, ..self }
    }
}

/// Error type for heartbeat operations.
#[derive(Debug)]
pub enum HeartbeatError {
    Io(std::io::Error),
    Serialization(String),
    NotFound(String),
}

/// Calls `ToString::to_string` on an I/O error (its `Display`). Nothing is
/// claimed of the text.
#[verifier::external_body]
fn io_text(e: &std::io::Error) -> String {
    e.to_string()
}

impl HeartbeatError {
    /// The error message.
    pub fn to_string(&self) -> (r: String)
        ensures
            match self {
                HeartbeatError::Serialization(m) => r@ == "Serialization error: "@ + m@,
                HeartbeatError::NotFound(m) => r@ == "Heartbeat not found for run: "@ + m@,
                HeartbeatError::Io(_) => r@.len() >= "IO error: "@.len()
                    && r@.subrange(0, "IO error: "@.len() as int) == "IO error: "@,
            },
    {
        match self {
            HeartbeatError::Io(e) => {
                let mut s = owned("IO error: ");
                let t = io_text(e);
                push_str(&mut s, t.as_str());
                assert(s@.subrange(0, "IO error: "@.len() as int) =~= "IO error: "@);
                s
            },
            HeartbeatError::Serialization(m) => {
                let mut s = owned("Serialization error: ");
                push_str(&mut s, m.as_str());
                s
            },
            HeartbeatError::NotFound(m) => {
                let mut s = owned("Heartbeat not found for run: ");
                push_str(&mut s, m.as_str());
                s
            },
        }
    }
}

/// The heartbeat file of a run under the data directory:
/// `<data_dir>/heartbeats/<run_id>.json`.
pub fn get_heartbeat_path(data_dir: &str, run_id: &str) -> (r: String)
    ensures
        r@ == data_dir@ + "/heartbeats/"@ + run_id@ + ".json"@,
{
    let mut path = owned(data_dir);
    push_str(&mut path, "/heartbeats/");
    push_str(&mut path, run_id);
    push_str(&mut path, ".json");
    path
}

} // verus!
