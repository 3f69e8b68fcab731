//! The monitor's status protocol: requests, responses, the shared state a
//! server answers from, and the answer to each request.

use vstd::prelude::*;
use vstd::hash_map::StringHashMap;
use crate::monitor::heartbeat::{Heartbeat, HeartbeatError, MonitorState};
use crate::text::{copy_strings, decimal, owned, push_str, push_u64, str_eq, string_views};

verus! {

/// Error type for IPC operations.
#[derive(Debug)]
pub enum IpcError {
    Io(std::io::Error),
    Socket(String),
    Serialization(String),
    Heartbeat(HeartbeatError),
}

/// IPC request types.
#[derive(Debug, Clone)]
pub enum IpcRequest {
    Status { include_heartbeats: bool },
    Heartbeat { run_id: String },
    Shutdown,
    Ping,
}

/// IPC response types.
#[derive(Debug, Clone)]
pub enum IpcResponse {
    Status { instance_id: String, state: String, uptime_secs: i64, active_runs: Vec<String> },
    Heartbeat(Heartbeat),
    Acknowledged,
    Error { code: String, message: String },
    Pong { timestamp: i64 },
}

/// Shared state for the IPC server.
pub struct SharedState {
    pub instance_id: String,
    pub state: MonitorState,
    pub uptime_secs: i64,
    pub active_runs: Vec<String>,
    /// The heartbeats recorded, by run id.
    pub heartbeats: StringHashMap<Heartbeat>,
}

impl SharedState {
    /// New shared state of a starting instance with nothing recorded.
    pub fn new(instance_id: &str) -> (r: Self)
        ensures
            r.instance_id@ == instance_id@,
            r.state == MonitorState::Starting,
            r.uptime_secs == 0,
            r.active_runs@.len() == 0,
            r.heartbeats@ == Map::<Seq<char>, Heartbeat>::empty(),
    {
        SharedState {
            instance_id: owned(instance_id),
            state: MonitorState::Starting,
            uptime_secs: 0,
            active_runs: Vec::new(),
            heartbeats: StringHashMap::new(),
        }
    }

    /// The same shared state with another monitor state.
    pub fn with_state(self, state: MonitorState) -> (r: Self)
        ensures
            r.instance_id == self.instance_id,
            r.state == state,
            r.uptime_secs == self.uptime_secs,
            r.active_runs == self.active_runs,
            r.heartbeats == self.heartbeats,
    {
        SharedState { state, ..self }
    }

    /// Records the heartbeat of a run, replacing any recorded before.
    pub fn record_heartbeat(&mut self, run_id: String, heartbeat: Heartbeat)
        ensures
            final(self).heartbeats@ == old(self).heartbeats@.insert(run_id@, heartbeat),
            final(self).instance_id == old(self).instance_id,
            final(self).state == old(self).state,
            final(self).uptime_secs == old(self).uptime_secs,
            final(self).active_runs == old(self).active_runs,
    {
        self.heartbeats.insert(run_id, heartbeat);
    }

    /// The run ids the state holds as active, as character sequences.
    pub open spec fn active_views(self) -> Seq<Seq<char>> {
        string_views(self.active_runs@)
    }

    /// Marks a run active: it is added at the end unless it already is.
    pub fn mark_run_active(&mut self, run_id: &str)
        ensures
            final(self).active_views() == if old(self).active_views().contains(run_id@) {
                old(self).active_views()
            } else {
                old(self).active_views().push(run_id@)
            },
            final(self).instance_id == old(self).instance_id,
            final(self).state == old(self).state,
            final(self).uptime_secs == old(self).uptime_secs,
            final(self).heartbeats == old(self).heartbeats,
    {
        let ghost views = self.active_views();
        let mut i: usize = 0;
        while i < self.active_runs.len()
            invariant
                i <= self.active_runs@.len(),
                views == string_views(self.active_runs@),
                forall|k: int| 0 <= k < i ==> views[k] != run_id@,
            decreases self.active_runs@.len() - i,
        {
            if str_eq(self.active_runs[i].as_str(), run_id) {
                assert(views[i as int] == run_id@);
                return;
            }
            i = i + 1;
        }
        assert(!views.contains(run_id@)) by {
            if views.contains(run_id@) {
                let k = choose|k: int| 0 <= k < views.len() && views[k] == run_id@;
                assert(views[k] != run_id@);
            }
        }
        self.active_runs.push(owned(run_id));
        assert(self.active_views() =~= views.push(run_id@));
    }

    /// Marks a run inactive: every entry of it is removed, the others keep
    /// their order.
    pub fn mark_run_inactive(&mut self, run_id: &str)
        ensures
            final(self).active_views() == old(self).active_views().filter(|r: Seq<char>| r != run_id@),
            final(self).instance_id == old(self).instance_id,
            final(self).state == old(self).state,
            final(self).uptime_secs == old(self).uptime_secs,
            final(self).heartbeats == old(self).heartbeats,
    {
        let ghost views = self.active_views();
        let ghost pred = |r: Seq<char>| r != run_id@;
        let mut kept: Vec<String> = Vec::new();
        let mut i: usize = 0;
        while i < self.active_runs.len()
            invariant
                i <= self.active_runs@.len(),
                views == string_views(self.active_runs@),
                pred == (|r: Seq<char>| r != run_id@),
                string_views(kept@) == views.take(i as int).filter(pred),
            decreases self.active_runs@.len() - i,
        {
            proof {
                assert(views.take(i + 1).drop_last() =~= views.take(i as int));
                assert(views.take(i + 1).last() == views[i as int]);
                reveal(Seq::filter);
            }
            if !str_eq(self.active_runs[i].as_str(), run_id) {
                let ghost before = kept@;
                kept.push(self.active_runs[i].clone());
                assert(string_views(kept@) =~= string_views(before).push(views[i as int]));
            }
            i = i + 1;
        }
        assert(views.take(views.len() as int) =~= views);
        self.active_runs = kept;
    }
}

/// Whether no run id occurs twice.
pub open spec fn distinct_runs(runs: Seq<Seq<char>>) -> bool {
    forall|i: int, j: int| 0 <= i < j < runs.len() ==> runs[i] != runs[j]
}

/// Law: marking runs active or inactive keeps the active runs free of
/// duplicates; after a run is marked active it is there, and after it is
/// marked inactive it is gone.
pub proof fn lemma_active_runs_stay_distinct(runs: Seq<Seq<char>>, run_id: Seq<char>)
    requires
        distinct_runs(runs),
    ensures
        distinct_runs(if runs.contains(run_id) { runs } else { runs.push(run_id) }),
        (if runs.contains(run_id) { runs } else { runs.push(run_id) }).contains(run_id),
        distinct_runs(runs.filter(|r: Seq<char>| r != run_id)),
        !runs.filter(|r: Seq<char>| r != run_id).contains(run_id),
{
    let pred = |r: Seq<char>| r != run_id;
    let f = runs.filter(pred);
    if !runs.contains(run_id) {
        let p = runs.push(run_id);
        assert(p[runs.len() as int] == run_id);
        assert forall|i: int, j: int| 0 <= i < j < p.len() implies p[i] != p[j] by {
            if j == runs.len() {
                assert(p[i] == runs[i]);
            } else {
                assert(p[i] == runs[i] && p[j] == runs[j]);
            }
        }
    }
    lemma_filter_keeps_distinct(runs, run_id);
    assert forall|k: int| 0 <= k < f.len() implies f[k] != run_id by {
        runs.lemma_filter_pred(pred, k);
        assert(pred(f[k]));
    }
}

proof fn lemma_filter_keeps_distinct(runs: Seq<Seq<char>>, run_id: Seq<char>)
    requires
        distinct_runs(runs),
    ensures
        distinct_runs(runs.filter(|r: Seq<char>| r != run_id)),
    decreases runs.len(),
{
    let pred = |r: Seq<char>| r != run_id;
    reveal(Seq::filter);
    if runs.len() > 0 {
        let init = runs.drop_last();
        assert forall|i: int, j: int| 0 <= i < j < init.len() implies init[i] != init[j] by {
            assert(init[i] == runs[i] && init[j] == runs[j]);
        }
        lemma_filter_keeps_distinct(init, run_id);
        let fi = init.filter(pred);
        if pred(runs.last()) {
            let f = fi.push(runs.last());
            assert(runs.filter(pred) == f);
            assert forall|i: int, j: int| 0 <= i < j < f.len() implies f[i] != f[j] by {
                if j == fi.len() {
                    assert(f[i] == fi[i]);
                    assert(fi.contains(fi[i]));
                    init.lemma_filter_contains_rev(pred, fi[i]);
                    assert(init.contains(fi[i]));
                    let k = choose|k: int| 0 <= k < init.len() && init[k] == fi[i];
                    assert(runs[k] == init[k]);
                    assert(runs[runs.len() - 1] == runs.last());
                } else {
                    assert(f[i] == fi[i] && f[j] == fi[j]);
                }
            }
        } else {
            assert(runs.filter(pred) == fi);
        }
    }
}

/// The answer to a request: the status read from the shared state, a copy
/// of the heartbeat recorded for the run (or a `NOT_FOUND` error when none
/// is), `Ok` to a shutdown,
/// and a pong stamped `now` to a ping.
pub fn respond(shared: &SharedState, request: &IpcRequest, now: i64) -> (r: IpcResponse)
    ensures
        match request {
            IpcRequest::Status { .. } => r matches IpcResponse::Status { instance_id, state, uptime_secs, active_runs }
                && instance_id@ == shared.instance_id@ && state@ == shared.state.label() && uptime_secs
                == shared.uptime_secs && active_runs@ == shared.active_runs@,
            IpcRequest::Heartbeat { run_id } => if shared.heartbeats@.contains_key(run_id@) {
                r matches IpcResponse::Heartbeat(hb) && hb.same_as(shared.heartbeats@[run_id@])
            } else {
                r matches IpcResponse::Error { code, message } && code@ == "NOT_FOUND"@ && message@
                    == "Heartbeat not found for run: "@ + run_id@
            },
            IpcRequest::Shutdown => r matches IpcResponse::Acknowledged,
            IpcRequest::Ping => r matches IpcResponse::Pong { timestamp } && timestamp == now,
        },
{
    match request {
        IpcRequest::Status { include_heartbeats: _ } => IpcResponse::Status {
            instance_id: shared.instance_id.clone(),
            state: shared.state.to_string(),
            uptime_secs: shared.uptime_secs,
            active_runs: copy_strings(&shared.active_runs),
        },
        IpcRequest::Heartbeat { run_id } => match shared.heartbeats.get(run_id.as_str()) {
            Some(hb) => IpcResponse::Heartbeat(hb.duplicate()),
            None => {
                let mut message = owned("Heartbeat not found for run: ");
                push_str(&mut message, run_id.as_str());
                IpcResponse::Error { code: owned("NOT_FOUND"), message }
            },
        },
        IpcRequest::Shutdown => IpcResponse::Acknowledged,
        IpcRequest::Ping => IpcResponse::Pong { timestamp: now },
    }
}

/// The well-known socket of the monitor under the data directory:
/// `<data_dir>/ipc/luther-monitor.sock`.
pub fn get_default_ipc_path(data_dir: &str) -> (r: String)
    ensures
        r@ == data_dir@ + "/ipc/luther-monitor.sock"@,
{
    let mut path = owned(data_dir);
    push_str(&mut path, "/ipc/luther-monitor.sock");
    path
}

/// The socket of one monitor process under the data directory:
/// `<data_dir>/ipc/luther-monitor-<pid>.sock`.
pub fn ipc_endpoint_path(data_dir: &str, pid: u32) -> (r: String)
    ensures
        r@ == data_dir@ + "/ipc/luther-monitor-"@ + decimal(pid as nat) + ".sock"@,
{
    let mut path = owned(data_dir);
    push_str(&mut path, "/ipc/luther-monitor-");
    push_u64(&mut path, pid as u64);
    push_str(&mut path, ".sock");
    path
}

} // verus!
