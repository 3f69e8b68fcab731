//! The plain-text reports of the command line: the persistent run registry,
//! the run table, one run's details, the process table, checkpoints and the
//! tail of a run's log. Each report is built as a string from plain values;
//! which processes are alive is handed in as the list of pids found alive.

use vstd::prelude::*;
use crate::text::{decimal, joined, lossy_text, push_char, utf8_lossy, opt_chars, opt_str_chars, owned, push_str, push_u64, push_i64, signed_decimal, u64_to_string, i64_to_string};
use crate::monitor::snapshot::{
    pad_right, push_padded, render_next_step, render_pid, render_run_table, push_text_or, next_step_text,
    pid_text, run_table_text, text_or, concat_lines, spaces, truncate_field, truncated, event_line, render_event, shown_events,
};
use crate::commands::{child_pids_text, contains_u32, format_child_pids, instance_pid, instance_pid_spec, ps_row_is_stale, PS_HEARTBEAT_STALE_SECS};
use crate::persistence::run_metadata::{RunMetadata, RunStatus};
use crate::persistence::leases::{IssueLease, LeaseStatus};
use crate::persistence::checkpoint::{Checkpoint, EventRecord};
use crate::time::{Timestamp, rfc3339_of, utc_seconds_in_range, utc_seconds_representable};
use crate::monitor::heartbeat::Heartbeat;
use crate::persistence::artifacts::{ArtifactRecord, join_path, path_join};

verus! {

/// Whether a run's recorded process is stale: it has a pid and that pid was
/// not found alive.
pub open spec fn process_stale(md: RunMetadata, alive_pids: Seq<u32>) -> bool {
    match md.process_pid {
        Some(pid) => !alive_pids.contains(pid),
        None => false,
    }
}

/// The pids, in order, that were not found alive.
pub open spec fn stale_pids(pids: Seq<u32>, alive_pids: Seq<u32>) -> Seq<u32>
    decreases pids.len(),
{
    if pids.len() == 0 {
        Seq::empty()
    } else if alive_pids.contains(pids.last()) {
        stale_pids(pids.drop_last(), alive_pids)
    } else {
        stale_pids(pids.drop_last(), alive_pids).push(pids.last())
    }
}

/// Pids in decimal, joined by commas.
pub open spec fn pids_joined(pids: Seq<u32>) -> Seq<char> {
    joined(pids.map_values(|p: u32| decimal(p as nat)), ", "@)
}

/// An optional issue or pull request number, or `(none)`.
pub open spec fn opt_id_text(n: Option<i64>) -> Seq<char> {
    match n {
        Some(v) => signed_decimal(v as int),
        None => "(none)"@,
    }
}

/// Whether a run's recorded process is stale, given the pids found alive.
pub fn is_process_stale(md: &RunMetadata, alive_pids: &[u32]) -> (r: bool)
    ensures
        r == process_stale(*md, alive_pids@),
{
    match md.process_pid {
        Some(pid) => !contains_u32(alive_pids, pid),
        None => false,
    }
}

/// The child pids of a run that were not found alive, in order.
pub fn stale_child_pids(child_pids: &[u32], alive_pids: &[u32]) -> (r: Vec<u32>)
    ensures
        r@ == stale_pids(child_pids@, alive_pids@),
{
    let mut out: Vec<u32> = Vec::new();
    let mut i: usize = 0;
    while i < child_pids.len()
        invariant
            i <= child_pids@.len(),
            out@ == stale_pids(child_pids@.take(i as int), alive_pids@),
        decreases child_pids@.len() - i,
    {
        let pid = child_pids[i];
        if !contains_u32(alive_pids, pid) {
            out.push(pid);
        }
        proof {
            assert(child_pids@.take(i + 1).drop_last() =~= child_pids@.take(i as int));
            assert(child_pids@.take(i + 1).last() == pid);
        }
        i = i + 1;
    }
    assert(child_pids@.take(child_pids@.len() as int) =~= child_pids@);
    out
}

/// Appends pids in decimal, joined by commas.
fn push_pids_joined(out: &mut String, pids: &[u32])
    ensures
        final(out)@ == old(out)@ + pids_joined(pids@),
{
    let ghost parts = pids@.map_values(|p: u32| decimal(p as nat));
    let ghost start = out@;
    if pids.len() == 0 {
        assert(parts =~= Seq::<Seq<char>>::empty());
        assert(out@ =~= old(out)@ + pids_joined(pids@));
        return;
    }
    push_u64(out, pids[0] as u64);
    proof {
        assert(parts.take(1).len() == 1);
        assert(parts.take(1)[0] == parts[0]);
        assert(out@ =~= start + joined(parts.take(1), ", "@));
    }
    let mut i: usize = 1;
    while i < pids.len()
        invariant
            1 <= i <= pids@.len(),
            parts == pids@.map_values(|p: u32| decimal(p as nat)),
            out@ == start + joined(parts.take(i as int), ", "@),
        decreases pids@.len() - i,
    {
        push_str(out, ", ");
        push_u64(out, pids[i] as u64);
        proof {
            assert(parts.take(i + 1).drop_last() =~= parts.take(i as int));
            assert(parts.take(i + 1).last() == parts[i as int]);
            assert(out@ =~= start + joined(parts.take(i + 1), ", "@));
        }
        i = i + 1;
    }
    assert(parts.take(pids@.len() as int) =~= parts);
}

fn push_opt_id(out: &mut String, n: Option<i64>)
    ensures
        final(out)@ == old(out)@ + opt_id_text(n),
{
    match n {
        Some(v) => push_i64(out, v),
        None => push_str(out, "(none)"),
    }
}

// ---------------------------------------------------------------------------
// The persistent run registry section of `status`.

/// The first lines of a run's registry entry: id, status, steps.
pub open spec fn registry_entry_head(md: RunMetadata) -> Seq<char> {
    "  Run ID: "@ + md.run_id@ + "\n"@ + "    Status: "@ + md.status.label() + "\n"@
        + "    Current step: "@ + text_or(md.current_step, "(none)"@) + "\n"@ + "    Previous: "@
        + text_or(md.previous_step, "(none)"@) + " -> "@ + text_or(md.previous_outcome, "(none)"@)
        + "\n"@ + "    Next step: "@ + next_step_text(md) + "\n"@
}

/// The path lines of a run's registry entry: log, artifacts and workspace.
pub open spec fn registry_entry_paths(md: RunMetadata) -> Seq<char> {
    "    Log: "@ + text_or(md.log_path, "(none)"@) + "\n"@ + "    Artifacts: "@
        + text_or(md.artifact_root, "(none)"@) + "\n"@ + "    Workspace: "@
        + text_or(md.workspace_path, "(none)"@) + "\n"@
}

/// The last lines of a run's registry entry: repository, head and process,
/// then a blank line.
pub open spec fn registry_entry_origin(md: RunMetadata, stale: bool) -> Seq<char> {
    "    Repo: "@ + text_or(md.repository, "(none)"@) + "  Issue: "@ + opt_id_text(md.issue_number)
        + "  PR: "@ + opt_id_text(md.pr_number) + "\n"@ + "    Head SHA: "@
        + text_or(md.head_sha, "(none)"@) + "\n"@ + "    Process PID: "@ + pid_text(md, stale) + "\n"@
        + "\n"@
}

/// The last lines of a run's registry entry.
pub open spec fn registry_entry_tail(md: RunMetadata, stale: bool) -> Seq<char> {
    registry_entry_paths(md) + registry_entry_origin(md, stale)
}

/// A run's registry entry.
pub open spec fn registry_entry(md: RunMetadata, alive_pids: Seq<u32>) -> Seq<char> {
    registry_entry_head(md) + registry_entry_tail(md, process_stale(md, alive_pids))
}

/// The entries of the runs, in order.
pub open spec fn registry_entries(runs: Seq<RunMetadata>, alive_pids: Seq<u32>) -> Seq<char>
    decreases runs.len(),
{
    if runs.len() == 0 {
        Seq::empty()
    } else {
        registry_entries(runs.drop_last(), alive_pids) + registry_entry(runs.last(), alive_pids)
    }
}

/// The registry section: its heading, then the runs, or a note that none was
/// found (naming the run asked for, if one was).
pub open spec fn registry_text(runs: Seq<RunMetadata>, queried: Option<Seq<char>>, alive_pids: Seq<u32>) -> Seq<char> {
    "\nPersistent Run Registry:\n"@ + if runs.len() == 0 {
        match queried {
            Some(id) => "  No run found with id '"@ + id + "'.\n"@,
            None => "  No runs recorded.\n"@,
        }
    } else {
        registry_entries(runs, alive_pids)
    }
}

fn render_registry_head(md: &RunMetadata, out: &mut String)
    ensures
        final(out)@ == old(out)@ + registry_entry_head(*md),
{
    push_str(out, "  Run ID: ");
    push_str(out, md.run_id.as_str());
    push_str(out, "\n");
    push_str(out, "    Status: ");
    push_str(out, md.status.as_str());
    push_str(out, "\n");
    push_str(out, "    Current step: ");
    push_text_or(out, &md.current_step, "(none)");
    push_str(out, "\n");
    push_str(out, "    Previous: ");
    push_text_or(out, &md.previous_step, "(none)");
    push_str(out, " -> ");
    push_text_or(out, &md.previous_outcome, "(none)");
    push_str(out, "\n");
    push_str(out, "    Next step: ");
    render_next_step(md, out);
    push_str(out, "\n");
    assert(out@ =~= old(out)@ + registry_entry_head(*md));
}

fn render_registry_paths(md: &RunMetadata, out: &mut String)
    ensures
        final(out)@ == old(out)@ + registry_entry_paths(*md),
{
    push_str(out, "    Log: ");
    push_text_or(out, &md.log_path, "(none)");
    push_str(out, "\n");
    push_str(out, "    Artifacts: ");
    push_text_or(out, &md.artifact_root, "(none)");
    push_str(out, "\n");
    push_str(out, "    Workspace: ");
    push_text_or(out, &md.workspace_path, "(none)");
    push_str(out, "\n");
    assert(out@ =~= old(out)@ + registry_entry_paths(*md));
}

fn render_registry_origin(md: &RunMetadata, stale: bool, out: &mut String)
    ensures
        final(out)@ == old(out)@ + registry_entry_origin(*md, stale),
{
    push_str(out, "    Repo: ");
    push_text_or(out, &md.repository, "(none)");
    push_str(out, "  Issue: ");
    push_opt_id(out, md.issue_number);
    push_str(out, "  PR: ");
    push_opt_id(out, md.pr_number);
    push_str(out, "\n");
    push_str(out, "    Head SHA: ");
    push_text_or(out, &md.head_sha, "(none)");
    push_str(out, "\n");
    push_str(out, "    Process PID: ");
    render_pid(md, stale, out);
    push_str(out, "\n");
    push_str(out, "\n");
    assert(out@ =~= old(out)@ + registry_entry_origin(*md, stale));
}

fn render_registry_tail(md: &RunMetadata, stale: bool, out: &mut String)
    ensures
        final(out)@ == old(out)@ + registry_entry_tail(*md, stale),
{
    render_registry_paths(md, out);
    render_registry_origin(md, stale, out);
    assert(out@ =~= old(out)@ + registry_entry_tail(*md, stale));
}

fn render_registry_entry(md: &RunMetadata, alive_pids: &[u32], out: &mut String)
    ensures
        final(out)@ == old(out)@ + registry_entry(*md, alive_pids@),
{
    let stale = is_process_stale(md, alive_pids);
    render_registry_head(md, out);
    render_registry_tail(md, stale, out);
    assert(out@ =~= old(out)@ + registry_entry(*md, alive_pids@));
}

/// The registry section of `status` for the runs read, `queried_run_id` being
/// the run asked for, if any.
pub fn run_registry_text(runs: &Vec<RunMetadata>, queried_run_id: Option<&str>, alive_pids: &[u32]) -> (r: String)
    ensures
        r@ == registry_text(
            runs@,
            match queried_run_id {
                Some(id) => Some(id@),
                None => None,
            },
            alive_pids@,
        ),
{
    let mut out = owned("\nPersistent Run Registry:\n");
    if runs.len() == 0 {
        match queried_run_id {
            Some(id) => {
                push_str(&mut out, "  No run found with id '");
                push_str(&mut out, id);
                push_str(&mut out, "'.\n");
            },
            None => push_str(&mut out, "  No runs recorded.\n"),
        }
        return out;
    }
    let ghost start = out@;
    let mut i: usize = 0;
    while i < runs.len()
        invariant
            i <= runs@.len(),
            out@ == start + registry_entries(runs@.take(i as int), alive_pids@),
        decreases runs@.len() - i,
    {
        render_registry_entry(&runs[i], alive_pids, &mut out);
        proof {
            assert(runs@.take(i + 1).drop_last() =~= runs@.take(i as int));
            assert(runs@.take(i + 1).last() == runs@[i as int]);
        }
        i = i + 1;
    }
    assert(runs@.take(runs@.len() as int) =~= runs@);
    out
}

/// The registry section of `status` when the registry cannot be read.
pub open spec fn registry_error_text(error: Seq<char>) -> Seq<char> {
    "\nPersistent Run Registry:\n  Status: registry unavailable ("@ + error + ")\n"@
}

/// The registry section of `status` when the registry cannot be read.
pub fn run_registry_error_text(error: &str) -> (r: String)
    ensures
        r@ == registry_error_text(error@),
{
    let mut out = owned("\nPersistent Run Registry:\n  Status: registry unavailable (");
    push_str(&mut out, error);
    push_str(&mut out, ")\n");
    out
}

/// The `runs list` table, or a note that there are no runs.
pub fn runs_table(runs: &Vec<RunMetadata>) -> (r: String)
    ensures
        r@ == run_table_text(runs@),
{
    let mut out = String::new();
    render_run_table(runs, &mut out);
    assert(out@ =~= run_table_text(runs@));
    out
}

// ---------------------------------------------------------------------------
// `runs show`: one run's details.

/// The heading of `runs show` and the first lines of its Run Info section.
pub open spec fn show_heading_text(md: RunMetadata) -> Seq<char> {
    "Run "@ + md.run_id@ + "\n"@ + "================================\n"@ + "Run Info:\n"@
        + "  Config: "@ + md.config_id@ + "\n"@ + "  Workflow type: "@ + md.workflow_type_id@ + "\n"@
}

/// The last lines of the Run Info section of `runs show`.
pub open spec fn show_origin_text(md: RunMetadata) -> Seq<char> {
    "  Repository: "@ + text_or(md.repository, "(none)"@) + "\n"@ + "  Issue: "@
        + opt_id_text(md.issue_number) + "  PR: "@ + opt_id_text(md.pr_number) + "\n"@
        + "  Head SHA: "@ + text_or(md.head_sha, "(none)"@) + "\n"@ + "  Status: "@ + md.status.label()
        + "\n"@
}

/// The Run Info section of `runs show`, with its heading.
pub open spec fn show_info_text(md: RunMetadata) -> Seq<char> {
    show_heading_text(md) + show_origin_text(md)
}

/// The Current State section of `runs show`.
pub open spec fn show_state_text(md: RunMetadata) -> Seq<char> {
    "\n"@ + "Current State:\n"@ + "  Current step: "@ + text_or(md.current_step, "(none)"@) + "\n"@
        + "  Previous: "@ + text_or(md.previous_step, "(none)"@) + " -> "@
        + text_or(md.previous_outcome, "(none)"@) + "\n"@ + "  Next step: "@ + next_step_text(md) + "\n"@
}

fn render_show_heading(md: &RunMetadata, out: &mut String)
    ensures
        final(out)@ == old(out)@ + show_heading_text(*md),
{
    push_str(out, "Run ");
    push_str(out, md.run_id.as_str());
    push_str(out, "\n");
    push_str(out, "================================\n");
    push_str(out, "Run Info:\n");
    push_str(out, "  Config: ");
    push_str(out, md.config_id.as_str());
    push_str(out, "\n");
    push_str(out, "  Workflow type: ");
    push_str(out, md.workflow_type_id.as_str());
    push_str(out, "\n");
    assert(out@ =~= old(out)@ + show_heading_text(*md));
}

fn render_show_origin(md: &RunMetadata, out: &mut String)
    ensures
        final(out)@ == old(out)@ + show_origin_text(*md),
{
    push_str(out, "  Repository: ");
    push_text_or(out, &md.repository, "(none)");
    push_str(out, "\n");
    push_str(out, "  Issue: ");
    push_opt_id(out, md.issue_number);
    push_str(out, "  PR: ");
    push_opt_id(out, md.pr_number);
    push_str(out, "\n");
    push_str(out, "  Head SHA: ");
    push_text_or(out, &md.head_sha, "(none)");
    push_str(out, "\n");
    push_str(out, "  Status: ");
    push_str(out, md.status.as_str());
    push_str(out, "\n");
    assert(out@ =~= old(out)@ + show_origin_text(*md));
}

fn render_show_info(md: &RunMetadata, out: &mut String)
    ensures
        final(out)@ == old(out)@ + show_info_text(*md),
{
    render_show_heading(md, out);
    render_show_origin(md, out);
    assert(out@ =~= old(out)@ + show_info_text(*md));
}

fn render_show_state(md: &RunMetadata, out: &mut String)
    ensures
        final(out)@ == old(out)@ + show_state_text(*md),
{
    push_str(out, "\n");
    push_str(out, "Current State:\n");
    push_str(out, "  Current step: ");
    push_text_or(out, &md.current_step, "(none)");
    push_str(out, "\n");
    push_str(out, "  Previous: ");
    push_text_or(out, &md.previous_step, "(none)");
    push_str(out, " -> ");
    push_text_or(out, &md.previous_outcome, "(none)");
    push_str(out, "\n");
    push_str(out, "  Next step: ");
    render_next_step(md, out);
    push_str(out, "\n");
    assert(out@ =~= old(out)@ + show_state_text(*md));
}

/// The Run Info and Current State sections of `runs show`.
pub fn runs_show_info(md: &RunMetadata) -> (r: String)
    ensures
        r@ == show_info_text(*md) + show_state_text(*md),
{
    let mut out = String::new();
    render_show_info(md, &mut out);
    render_show_state(md, &mut out);
    assert(out@ =~= show_info_text(*md) + show_state_text(*md));
    out
}

/// The Paths section of `runs show`, with the log file's path and whether it
/// exists.
pub open spec fn show_paths_text(md: RunMetadata, log_path: Seq<char>, log_exists: bool) -> Seq<char> {
    "\n"@ + "Paths:\n"@ + "  Workspace: "@ + text_or(md.workspace_path, "(none)"@) + "\n"@ + "  Log: "@
        + log_path + " ("@ + (if log_exists { "exists"@ } else { "missing"@ }) + ")\n"@
        + "  Artifact root: "@ + text_or(md.artifact_root, "(none)"@) + "\n"@
}

/// The child pids line of `runs show`: none, or the pids and which of them
/// are stale.
pub open spec fn child_pids_line(children: Seq<u32>, alive_pids: Seq<u32>) -> Seq<char> {
    if children.len() == 0 {
        "  Child PIDs: (none)\n"@
    } else {
        "  Child PIDs: "@ + pids_joined(children) + " (stale: "@ + if stale_pids(children, alive_pids).len() == 0 {
            "none"@
        } else {
            pids_joined(stale_pids(children, alive_pids))
        } + ")\n"@
    }
}

/// The Processes section of `runs show`.
pub open spec fn show_procs_text(md: RunMetadata, alive_pids: Seq<u32>) -> Seq<char> {
    "\n"@ + "Processes:\n"@ + "  Workflow PID: "@ + pid_text(md, process_stale(md, alive_pids)) + "\n"@
        + child_pids_line(md.child_pids@, alive_pids)
}

fn render_show_paths(md: &RunMetadata, log_path: &str, log_exists: bool, out: &mut String)
    ensures
        final(out)@ == old(out)@ + show_paths_text(*md, log_path@, log_exists),
{
    push_str(out, "\n");
    push_str(out, "Paths:\n");
    push_str(out, "  Workspace: ");
    push_text_or(out, &md.workspace_path, "(none)");
    push_str(out, "\n");
    push_str(out, "  Log: ");
    push_str(out, log_path);
    push_str(out, " (");
    if log_exists {
        push_str(out, "exists");
    } else {
        push_str(out, "missing");
    }
    push_str(out, ")\n");
    push_str(out, "  Artifact root: ");
    push_text_or(out, &md.artifact_root, "(none)");
    push_str(out, "\n");
    assert(out@ =~= old(out)@ + show_paths_text(*md, log_path@, log_exists));
}

fn render_child_pids_line(children: &Vec<u32>, alive_pids: &[u32], out: &mut String)
    ensures
        final(out)@ == old(out)@ + child_pids_line(children@, alive_pids@),
{
    if children.len() == 0 {
        push_str(out, "  Child PIDs: (none)\n");
        return;
    }
    let stale = stale_child_pids(children.as_slice(), alive_pids);
    push_str(out, "  Child PIDs: ");
    push_pids_joined(out, children.as_slice());
    push_str(out, " (stale: ");
    if stale.len() == 0 {
        push_str(out, "none");
    } else {
        push_pids_joined(out, stale.as_slice());
    }
    push_str(out, ")\n");
    assert(out@ =~= old(out)@ + child_pids_line(children@, alive_pids@));
}

fn render_show_procs(md: &RunMetadata, alive_pids: &[u32], out: &mut String)
    ensures
        final(out)@ == old(out)@ + show_procs_text(*md, alive_pids@),
{
    let stale = is_process_stale(md, alive_pids);
    push_str(out, "\n");
    push_str(out, "Processes:\n");
    push_str(out, "  Workflow PID: ");
    render_pid(md, stale, out);
    push_str(out, "\n");
    render_child_pids_line(&md.child_pids, alive_pids, out);
    assert(out@ =~= old(out)@ + show_procs_text(*md, alive_pids@));
}

/// The Paths and Processes sections of `runs show`, given the log file's
/// path, whether it exists and the pids found alive.
pub fn runs_show_paths_and_procs(md: &RunMetadata, log_path: &str, log_exists: bool, alive_pids: &[u32]) -> (r: String)
    ensures
        r@ == show_paths_text(*md, log_path@, log_exists) + show_procs_text(*md, alive_pids@),
{
    let mut out = String::new();
    render_show_paths(md, log_path, log_exists, &mut out);
    render_show_procs(md, alive_pids, &mut out);
    assert(out@ =~= show_paths_text(*md, log_path@, log_exists) + show_procs_text(*md, alive_pids@));
    out
}

/// How many of a run's latest events `runs show` lists.
pub const SHOW_EVENT_COUNT: usize = 15;

/// One artifact's line: its path and size in bytes, `?` when unknown.
pub open spec fn artifact_line(a: ArtifactRecord) -> Seq<char> {
    "  "@ + a.artifact_path@ + " ("@ + match a.size_bytes {
        Some(n) => decimal(n as nat),
        None => "?"@,
    } + " bytes)\n"@
}

/// The Recent Events section of `runs show`: the latest events, or `(none)`.
pub open spec fn show_events_text(events: Seq<EventRecord>) -> Seq<char> {
    "\n"@ + "Recent Events:\n"@ + if events.len() == 0 {
        "  (none)\n"@
    } else {
        concat_lines(shown_events(events, SHOW_EVENT_COUNT as nat), |e: EventRecord| event_line(e))
    }
}

/// The Artifacts section of `runs show`: each artifact, or `(none)`.
pub open spec fn show_artifacts_text(artifacts: Seq<ArtifactRecord>) -> Seq<char> {
    "\n"@ + "Artifacts:\n"@ + if artifacts.len() == 0 {
        "  (none)\n"@
    } else {
        concat_lines(artifacts, |a: ArtifactRecord| artifact_line(a))
    }
}

fn render_show_events(events: &Vec<EventRecord>, out: &mut String)
    ensures
        final(out)@ == old(out)@ + show_events_text(events@),
{
    push_str(out, "\n");
    push_str(out, "Recent Events:\n");
    if events.len() == 0 {
        push_str(out, "  (none)\n");
        assert(out@ =~= old(out)@ + show_events_text(events@));
        return;
    }
    let start: usize = if events.len() > SHOW_EVENT_COUNT {
        events.len() - SHOW_EVENT_COUNT
    } else {
        0
    };
    assert(events@.subrange(start as int, events@.len() as int) =~= shown_events(
        events@,
        SHOW_EVENT_COUNT as nat,
    ));
    let ghost line = |e: EventRecord| event_line(e);
    let ghost base = out@;
    let mut i: usize = start;
    proof {
        assert(events@.subrange(start as int, start as int) =~= Seq::<EventRecord>::empty());
    }
    while i < events.len()
        invariant
            start <= i <= events@.len(),
            line == (|e: EventRecord| event_line(e)),
            out@ == base + concat_lines(events@.subrange(start as int, i as int), line),
        decreases events@.len() - i,
    {
        render_event(&events[i], out);
        proof {
            assert(events@.subrange(start as int, i + 1).drop_last() =~= events@.subrange(
                start as int,
                i as int,
            ));
            assert(events@.subrange(start as int, i + 1).last() == events@[i as int]);
        }
        i = i + 1;
    }
    assert(out@ =~= old(out)@ + show_events_text(events@));
}

fn render_artifact(a: &ArtifactRecord, out: &mut String)
    ensures
        final(out)@ == old(out)@ + artifact_line(*a),
{
    push_str(out, "  ");
    push_str(out, a.artifact_path.as_str());
    push_str(out, " (");
    match a.size_bytes {
        Some(n) => push_u64(out, n),
        None => push_str(out, "?"),
    }
    push_str(out, " bytes)\n");
    assert(out@ =~= old(out)@ + artifact_line(*a));
}

fn render_show_artifacts(artifacts: &Vec<ArtifactRecord>, out: &mut String)
    ensures
        final(out)@ == old(out)@ + show_artifacts_text(artifacts@),
{
    push_str(out, "\n");
    push_str(out, "Artifacts:\n");
    if artifacts.len() == 0 {
        push_str(out, "  (none)\n");
        assert(out@ =~= old(out)@ + show_artifacts_text(artifacts@));
        return;
    }
    let ghost line = |a: ArtifactRecord| artifact_line(a);
    let ghost base = out@;
    let mut i: usize = 0;
    while i < artifacts.len()
        invariant
            i <= artifacts@.len(),
            line == (|a: ArtifactRecord| artifact_line(a)),
            out@ == base + concat_lines(artifacts@.take(i as int), line),
        decreases artifacts@.len() - i,
    {
        render_artifact(&artifacts[i], out);
        proof {
            assert(artifacts@.take(i + 1).drop_last() =~= artifacts@.take(i as int));
            assert(artifacts@.take(i + 1).last() == artifacts@[i as int]);
        }
        i = i + 1;
    }
    assert(artifacts@.take(artifacts@.len() as int) =~= artifacts@);
    assert(out@ =~= old(out)@ + show_artifacts_text(artifacts@));
}

/// The Recent Events and Artifacts sections of `runs show`.
pub fn runs_show_events(events: &Vec<EventRecord>, artifacts: &Vec<ArtifactRecord>) -> (r: String)
    ensures
        r@ == show_events_text(events@) + show_artifacts_text(artifacts@),
{
    let mut out = String::new();
    render_show_events(events, &mut out);
    render_show_artifacts(artifacts, &mut out);
    assert(out@ =~= show_events_text(events@) + show_artifacts_text(artifacts@));
    out
}

/// The whole of `runs show` in human-readable form.
pub open spec fn runs_show_text(
    md: RunMetadata,
    events: Seq<EventRecord>,
    artifacts: Seq<ArtifactRecord>,
    log_path: Seq<char>,
    log_exists: bool,
    alive_pids: Seq<u32>,
) -> Seq<char> {
    show_info_text(md) + show_state_text(md) + show_paths_text(md, log_path, log_exists) + show_procs_text(
        md,
        alive_pids,
    ) + show_events_text(events) + show_artifacts_text(artifacts)
}

/// `runs show` in human-readable form: the run's info and state, its paths
/// and processes, its latest events and its artifacts.
pub fn runs_show_human(
    md: &RunMetadata,
    events: &Vec<EventRecord>,
    artifacts: &Vec<ArtifactRecord>,
    log_path: &str,
    log_exists: bool,
    alive_pids: &[u32],
) -> (r: String)
    ensures
        r@ == runs_show_text(*md, events@, artifacts@, log_path@, log_exists, alive_pids@),
{
    let mut out = String::new();
    render_show_info(md, &mut out);
    render_show_state(md, &mut out);
    render_show_paths(md, log_path, log_exists, &mut out);
    render_show_procs(md, alive_pids, &mut out);
    render_show_events(events, &mut out);
    render_show_artifacts(artifacts, &mut out);
    assert(out@ =~= runs_show_text(*md, events@, artifacts@, log_path@, log_exists, alive_pids@));
    out
}

/// The log file a run writes: the conventional `<run id>.log` under the log
/// directory.
pub open spec fn run_log_path_text(log_dir: Seq<char>, run_id: Seq<char>) -> Seq<char> {
    path_join(log_dir, run_id + ".log"@)
}

/// The conventional log file of a run: `<run id>.log` under `log_dir`.
pub fn run_log_path(log_dir: &str, run_id: &str) -> (r: String)
    ensures
        r@ == run_log_path_text(log_dir@, run_id@),
{
    let mut name = owned(run_id);
    push_str(&mut name, ".log");
    join_path(log_dir, name.as_str())
}

/// The log file of a run: the path recorded with it, else the conventional
/// one under `log_dir`.
pub fn effective_log_path(md: &RunMetadata, run_id: &str, log_dir: &str) -> (r: String)
    ensures
        r@ == match md.log_path {
            Some(p) => p@,
            None => run_log_path_text(log_dir@, run_id@),
        },
{
    match &md.log_path {
        Some(p) => p.clone(),
        None => run_log_path(log_dir, run_id),
    }
}

// ---------------------------------------------------------------------------
// `runs checkpoints`.

/// One checkpoint's row: step, status, loop and retry counts, time.
pub open spec fn checkpoint_row(c: Checkpoint) -> Seq<char> {
    "  "@ + pad_right(c.step_id@, 26) + " "@ + pad_right(c.state_snapshot.status@, 16) + " "@
        + pad_right(decimal(c.state_snapshot.loop_count as nat), 6) + " "@
        + pad_right(decimal(c.state_snapshot.retry_count as nat), 6) + " "@
        + rfc3339_of(c.timestamp.secs, c.timestamp.nanos) + "\n"@
}

/// The heading row of the checkpoint table.
pub open spec fn checkpoint_header() -> Seq<char> {
    "  "@ + pad_right("STEP"@, 26) + " "@ + pad_right("STATUS"@, 16) + " "@ + pad_right("LOOP"@, 6) + " "@
        + pad_right("RETRY"@, 6) + " TIMESTAMP\n"@
}

/// The checkpoints of a run as a table, or a note that it has none.
pub open spec fn checkpoints_text(run_id: Seq<char>, checkpoints: Seq<Checkpoint>) -> Seq<char> {
    if checkpoints.len() == 0 {
        "No checkpoints recorded for run '"@ + run_id + "'.\n"@
    } else {
        "Checkpoints for run '"@ + run_id + "':\n"@ + checkpoint_header() + concat_lines(
            checkpoints,
            |c: Checkpoint| checkpoint_row(c),
        )
    }
}

fn render_checkpoint_row(c: &Checkpoint, out: &mut String)
    ensures
        final(out)@ == old(out)@ + checkpoint_row(*c),
{
    let loops = u64_to_string(c.state_snapshot.loop_count as u64);
    let retries = u64_to_string(c.state_snapshot.retry_count as u64);
    let when = c.timestamp.to_rfc3339();
    push_str(out, "  ");
    push_padded(out, c.step_id.as_str(), 26);
    push_str(out, " ");
    push_padded(out, c.state_snapshot.status.as_str(), 16);
    push_str(out, " ");
    push_padded(out, loops.as_str(), 6);
    push_str(out, " ");
    push_padded(out, retries.as_str(), 6);
    push_str(out, " ");
    push_str(out, when.as_str());
    push_str(out, "\n");
    assert(out@ =~= old(out)@ + checkpoint_row(*c));
}

/// `runs checkpoints` in human-readable form.
pub fn checkpoints_table(run_id: &str, checkpoints: &Vec<Checkpoint>) -> (r: String)
    ensures
        r@ == checkpoints_text(run_id@, checkpoints@),
{
    if checkpoints.len() == 0 {
        let mut out = owned("No checkpoints recorded for run '");
        push_str(&mut out, run_id);
        push_str(&mut out, "'.\n");
        return out;
    }
    let mut out = owned("Checkpoints for run '");
    push_str(&mut out, run_id);
    push_str(&mut out, "':\n");
    push_str(&mut out, "  ");
    push_padded(&mut out, "STEP", 26);
    push_str(&mut out, " ");
    push_padded(&mut out, "STATUS", 16);
    push_str(&mut out, " ");
    push_padded(&mut out, "LOOP", 6);
    push_str(&mut out, " ");
    push_padded(&mut out, "RETRY", 6);
    push_str(&mut out, " TIMESTAMP\n");
    let ghost line = |c: Checkpoint| checkpoint_row(c);
    let ghost base = out@;
    let mut i: usize = 0;
    while i < checkpoints.len()
        invariant
            i <= checkpoints@.len(),
            line == (|c: Checkpoint| checkpoint_row(c)),
            out@ == base + concat_lines(checkpoints@.take(i as int), line),
        decreases checkpoints@.len() - i,
    {
        render_checkpoint_row(&checkpoints[i], &mut out);
        proof {
            assert(checkpoints@.take(i + 1).drop_last() =~= checkpoints@.take(i as int));
            assert(checkpoints@.take(i + 1).last() == checkpoints@[i as int]);
        }
        i = i + 1;
    }
    assert(checkpoints@.take(checkpoints@.len() as int) =~= checkpoints@);
    assert(out@ =~= checkpoints_text(run_id@, checkpoints@));
    out
}

// ---------------------------------------------------------------------------
// `status`: heartbeats and the registry.

/// When a heartbeat was written, in RFC 3339, or `unknown` when the time
/// cannot be represented.
pub open spec fn last_seen_text(secs: i64) -> Seq<char> {
    if utc_seconds_representable(secs as int) {
        rfc3339_of(secs, 0)
    } else {
        "unknown"@
    }
}

/// The first lines of a heartbeat's entry in `status`: the run id it is
/// filed by, state, instance and uptime.
pub open spec fn heartbeat_entry_head(run_id: Seq<char>, hb: Heartbeat) -> Seq<char> {
    "  Run ID: "@ + run_id + "\n"@ + "    State: "@ + hb.state.label() + "\n"@ + "    Instance: "@
        + hb.instance_id@ + "\n"@ + "    Uptime: "@ + signed_decimal(hb.uptime_secs as int) + " seconds\n"@
}

/// The last lines of a heartbeat's entry in `status`: when it was written,
/// its active workers if any, and a blank line.
pub open spec fn heartbeat_entry_tail(hb: Heartbeat) -> Seq<char> {
    "    Last heartbeat: "@ + last_seen_text(hb.timestamp) + "\n"@ + (if hb.active_workers > 0 {
        "    Active workers: "@ + decimal(hb.active_workers as nat) + "\n"@
    } else {
        Seq::empty()
    }) + "\n"@
}

/// A heartbeat's entry in `status`, under the run id it is filed by.
pub open spec fn heartbeat_entry_text(run_id: Seq<char>, hb: Heartbeat) -> Seq<char> {
    heartbeat_entry_head(run_id, hb) + heartbeat_entry_tail(hb)
}

/// The heartbeat section of `status`: each heartbeat under its run id, or a
/// note that there are none.
pub open spec fn heartbeats_text(entries: Seq<(String, Heartbeat)>) -> Seq<char> {
    if entries.len() == 0 {
        "No active runs found.\n  Status: No heartbeats detected\n"@
    } else {
        "Active/Recent Runs:\n"@ + concat_lines(
            entries,
            |e: (String, Heartbeat)| heartbeat_entry_text(e.0@, e.1),
        )
    }
}

fn last_seen(secs: i64) -> (r: String)
    ensures
        r@ == last_seen_text(secs),
{
    if utc_seconds_in_range(secs) {
        Timestamp { secs, nanos: 0 }.to_rfc3339()
    } else {
        owned("unknown")
    }
}

fn render_heartbeat_head(run_id: &String, hb: &Heartbeat, out: &mut String)
    ensures
        final(out)@ == old(out)@ + heartbeat_entry_head(run_id@, *hb),
{
    push_str(out, "  Run ID: ");
    push_str(out, run_id.as_str());
    push_str(out, "\n");
    push_str(out, "    State: ");
    push_str(out, hb.state.as_str());
    push_str(out, "\n");
    push_str(out, "    Instance: ");
    push_str(out, hb.instance_id.as_str());
    push_str(out, "\n");
    push_str(out, "    Uptime: ");
    push_i64(out, hb.uptime_secs);
    push_str(out, " seconds\n");
    assert(out@ =~= old(out)@ + heartbeat_entry_head(run_id@, *hb));
}

fn render_heartbeat_tail(hb: &Heartbeat, out: &mut String)
    ensures
        final(out)@ == old(out)@ + heartbeat_entry_tail(*hb),
{
    let seen = last_seen(hb.timestamp);
    push_str(out, "    Last heartbeat: ");
    push_str(out, seen.as_str());
    push_str(out, "\n");
    if hb.active_workers > 0 {
        push_str(out, "    Active workers: ");
        push_u64(out, hb.active_workers as u64);
        push_str(out, "\n");
    }
    push_str(out, "\n");
    assert(out@ =~= old(out)@ + heartbeat_entry_tail(*hb));
}

fn render_heartbeat_entry(run_id: &String, hb: &Heartbeat, out: &mut String)
    ensures
        final(out)@ == old(out)@ + heartbeat_entry_text(run_id@, *hb),
{
    render_heartbeat_head(run_id, hb, out);
    render_heartbeat_tail(hb, out);
    assert(out@ =~= old(out)@ + heartbeat_entry_text(run_id@, *hb));
}

/// The heartbeat section of `status`, for the heartbeats read, each under
/// the run id it is filed by, in the order given.
pub fn heartbeat_status(entries: &Vec<(String, Heartbeat)>) -> (r: String)
    ensures
        r@ == heartbeats_text(entries@),
{
    if entries.len() == 0 {
        return owned("No active runs found.\n  Status: No heartbeats detected\n");
    }
    let mut out = owned("Active/Recent Runs:\n");
    let ghost line = |e: (String, Heartbeat)| heartbeat_entry_text(e.0@, e.1);
    let ghost base = out@;
    let mut i: usize = 0;
    while i < entries.len()
        invariant
            i <= entries@.len(),
            line == (|e: (String, Heartbeat)| heartbeat_entry_text(e.0@, e.1)),
            out@ == base + concat_lines(entries@.take(i as int), line),
        decreases entries@.len() - i,
    {
        let (run_id, hb) = &entries[i];
        render_heartbeat_entry(run_id, hb, &mut out);
        proof {
            assert(entries@.take(i + 1).drop_last() =~= entries@.take(i as int));
            assert(entries@.take(i + 1).last() == entries@[i as int]);
        }
        i = i + 1;
    }
    assert(entries@.take(entries@.len() as int) =~= entries@);
    out
}

/// The heartbeat filed first under a run id.
pub open spec fn heartbeat_for(entries: Seq<(String, Heartbeat)>, run_id: Seq<char>) -> Option<Heartbeat>
    decreases entries.len(),
{
    if entries.len() == 0 {
        None
    } else if entries[0].0@ == run_id {
        Some(entries[0].1)
    } else {
        heartbeat_for(entries.subrange(1, entries.len() as int), run_id)
    }
}

/// The details asked for one run: its heartbeat's state (by its variant
/// name) and active workers, or that no heartbeat is filed under it; nothing
/// when no run was asked for.
pub open spec fn requested_details_text(run_id: Option<Seq<char>>, entries: Seq<(String, Heartbeat)>) -> Seq<char> {
    match run_id {
        None => Seq::empty(),
        Some(id) => match heartbeat_for(entries, id) {
            Some(hb) => "Details for run '"@ + id + "':\n"@ + "  State: "@ + hb.state.variant_name() + "\n"@
                + "  Active workers: "@ + decimal(hb.active_workers as nat) + "\n"@,
            None => "No heartbeat found for run '"@ + id + "'\n"@,
        },
    }
}

fn find_heartbeat<'a>(entries: &'a Vec<(String, Heartbeat)>, run_id: &str) -> (r: Option<&'a Heartbeat>)
    ensures
        match r {
            Some(hb) => heartbeat_for(entries@, run_id@) == Some(*hb),
            None => heartbeat_for(entries@, run_id@) is None,
        },
{
    let mut i: usize = 0;
    assert(entries@.subrange(0, entries@.len() as int) =~= entries@);
    while i < entries.len()
        invariant
            i <= entries@.len(),
            heartbeat_for(entries@.subrange(i as int, entries@.len() as int), run_id@) == heartbeat_for(
                entries@,
                run_id@,
            ),
        decreases entries@.len() - i,
    {
        let ghost rest = entries@.subrange(i as int, entries@.len() as int);
        proof {
            assert(rest[0] == entries@[i as int]);
            assert(rest.subrange(1, rest.len() as int) =~= entries@.subrange(i + 1, entries@.len() as int));
        }
        if crate::text::str_eq(entries[i].0.as_str(), run_id) {
            return Some(&entries[i].1);
        }
        i = i + 1;
    }
    proof {
        assert(entries@.subrange(i as int, entries@.len() as int).len() == 0);
    }
    None
}

/// The details `status` prints for the run asked for, if any.
pub fn requested_heartbeat_details(run_id: Option<&str>, entries: &Vec<(String, Heartbeat)>) -> (r: String)
    ensures
        r@ == requested_details_text(
            match run_id {
                Some(id) => Some(id@),
                None => None,
            },
            entries@,
        ),
{
    match run_id {
        None => String::new(),
        Some(id) => match find_heartbeat(entries, id) {
            Some(hb) => {
                let mut out = owned("Details for run '");
                push_str(&mut out, id);
                push_str(&mut out, "':\n");
                push_str(&mut out, "  State: ");
                push_str(&mut out, hb.state.variant_name_str());
                push_str(&mut out, "\n");
                push_str(&mut out, "  Active workers: ");
                push_u64(&mut out, hb.active_workers as u64);
                push_str(&mut out, "\n");
                out
            },
            None => {
                let mut out = owned("No heartbeat found for run '");
                push_str(&mut out, id);
                push_str(&mut out, "'\n");
                out
            },
        },
    }
}

/// The heading of `status`, stamped with the time it was taken.
pub open spec fn status_heading_text(now: Timestamp) -> Seq<char> {
    "Luther Workflow Monitor Status\n"@ + "==============================\n"@ + "Timestamp: "@
        + rfc3339_of(now.secs, now.nanos) + "\n"@ + "\n"@
}

/// The whole of `status` in human-readable form.
pub open spec fn status_text(
    now: Timestamp,
    entries: Seq<(String, Heartbeat)>,
    run_id: Option<Seq<char>>,
    registry: Result<Seq<RunMetadata>, Seq<char>>,
    alive_pids: Seq<u32>,
) -> Seq<char> {
    status_heading_text(now) + heartbeats_text(entries) + requested_details_text(run_id, entries) + match registry {
        Ok(runs) => registry_text(runs, run_id, alive_pids),
        Err(e) => registry_error_text(e),
    }
}

/// `status` in human-readable form: the heading stamped `now`, the
/// heartbeats read, the details of the run asked for, and the registry's runs
/// or why it could not be read.
pub fn status_report(
    now: Timestamp,
    entries: &Vec<(String, Heartbeat)>,
    run_id: Option<&str>,
    registry: &Result<Vec<RunMetadata>, String>,
    alive_pids: &[u32],
) -> (r: String)
    ensures
        r@ == status_text(
            now,
            entries@,
            match run_id {
                Some(id) => Some(id@),
                None => None,
            },
            match registry {
                Ok(runs) => Ok(runs@),
                Err(e) => Err(e@),
            },
            alive_pids@,
        ),
{
    let mut out = owned("Luther Workflow Monitor Status\n");
    push_str(&mut out, "==============================\n");
    push_str(&mut out, "Timestamp: ");
    let when = now.to_rfc3339();
    push_str(&mut out, when.as_str());
    push_str(&mut out, "\n");
    push_str(&mut out, "\n");
    let beats = heartbeat_status(entries);
    push_str(&mut out, beats.as_str());
    let details = requested_heartbeat_details(run_id, entries);
    push_str(&mut out, details.as_str());
    let section = match registry {
        Ok(runs) => run_registry_text(runs, run_id, alive_pids),
        Err(e) => run_registry_error_text(e.as_str()),
    };
    push_str(&mut out, section.as_str());
    out
}

// ---------------------------------------------------------------------------
// `runs list`: which runs are listed.

/// Whether `runs list` keeps a run: it has the config asked for, if one was,
/// and the status asked for, if one was.
pub open spec fn listed(md: RunMetadata, config: Option<Seq<char>>, status: Option<RunStatus>) -> bool {
    &&& (config matches Some(c) ==> md.config_id@ == c)
    &&& (status matches Some(st) ==> md.status == st)
}

/// The runs `runs list` keeps, in their order.
pub open spec fn listed_runs(runs: Seq<RunMetadata>, config: Option<Seq<char>>, status: Option<RunStatus>) -> Seq<
    RunMetadata,
> {
    runs.filter(|md: RunMetadata| listed(md, config, status))
}

/// Law: `runs list` keeps exactly the runs with the config and the status
/// asked for: every run kept has them, and every run that has them is kept.
/// A status filter applies whether or not a config is asked for.
pub proof fn lemma_listed_runs_exactly(runs: Seq<RunMetadata>, config: Option<Seq<char>>, status: Option<RunStatus>)
    ensures
        forall|i: int|
            #![trigger listed_runs(runs, config, status)[i]]
            0 <= i < listed_runs(runs, config, status).len() ==> {
                &&& (status matches Some(st) ==> listed_runs(runs, config, status)[i].status == st)
                &&& (config matches Some(c) ==> listed_runs(runs, config, status)[i].config_id@ == c)
                &&& runs.contains(listed_runs(runs, config, status)[i])
            },
        forall|i: int|
            #![trigger runs[i]]
            0 <= i < runs.len() && (status matches Some(st) ==> runs[i].status == st) && (config matches Some(c)
                ==> runs[i].config_id@ == c) ==> listed_runs(runs, config, status).contains(runs[i]),
{
    let pred = |md: RunMetadata| listed(md, config, status);
    assert forall|i: int| 0 <= i < listed_runs(runs, config, status).len() implies {
        &&& (status matches Some(st) ==> listed_runs(runs, config, status)[i].status == st)
        &&& (config matches Some(c) ==> listed_runs(runs, config, status)[i].config_id@ == c)
        &&& runs.contains(listed_runs(runs, config, status)[i])
    } by {
        runs.lemma_filter_pred(pred, i);
        assert(runs.filter(pred).contains(runs.filter(pred)[i]));
        runs.lemma_filter_contains_rev(pred, runs.filter(pred)[i]);
    }
    assert forall|i: int|
        0 <= i < runs.len() && (status matches Some(st) ==> runs[i].status == st) && (config matches Some(c)
            ==> runs[i].config_id@ == c) implies listed_runs(runs, config, status).contains(runs[i]) by {
        runs.lemma_filter_contains(pred, i);
    }
}

/// The runs of `runs list`: those with the config asked for and the status
/// asked for (each only when asked for), in their order. A status that is
/// not a run status is refused.
pub fn filter_runs(runs: Vec<RunMetadata>, config: Option<&str>, state: Option<&str>) -> (r: Result<
    Vec<RunMetadata>,
    String,
>)
    ensures
        match state {
            Some(s) => match RunStatus::from_label(s@) {
                Some(st) => r matches Ok(v) && v@ == listed_runs(runs@, opt_str_chars(config), Some(st)),
                None => r matches Err(m) && m@ == "invalid --state '"@ + s@ + "': "@ + "Unknown run status: "@ + s@,
            },
            None => r matches Ok(v) && v@ == listed_runs(runs@, opt_str_chars(config), None),
        },
        forall|i: int|
            #![trigger r->Ok_0@[i]]
            r is Ok && 0 <= i < r->Ok_0@.len() ==> {
                &&& (state matches Some(s) ==> r->Ok_0@[i].status.label() == s@)
                &&& (config matches Some(c) ==> r->Ok_0@[i].config_id@ == c@)
                &&& runs@.contains(r->Ok_0@[i])
            },
        forall|i: int|
            #![trigger runs@[i]]
            r is Ok && 0 <= i < runs@.len() && (state matches Some(s) ==> runs@[i].status.label() == s@) && (
            config matches Some(c) ==> runs@[i].config_id@ == c@) ==> r->Ok_0@.contains(runs@[i]),
{
    proof {
        lemma_listed_runs_exactly(runs@, opt_str_chars(config), match state {
            Some(s) => RunStatus::from_label(s@),
            None => None,
        });
        if let Some(s) = state {
            if let Some(st) = RunStatus::from_label(s@) {
                crate::persistence::run_metadata::lemma_run_status_label_of_parsed(s@);
            }
            assert forall|i: int| 0 <= i < runs@.len() && runs@[i].status.label() == s@ implies RunStatus::from_label(
                s@,
            ) == Some(#[trigger] runs@[i].status) by {
                crate::persistence::run_metadata::lemma_run_status_round_trip(runs@[i].status);
            }
        }
    }
    let wanted: Option<RunStatus> = match state {
        Some(s) => match RunStatus::parse_str(s) {
            Ok(st) => Some(st),
            Err(e) => {
                let mut msg = owned("invalid --state '");
                push_str(&mut msg, s);
                push_str(&mut msg, "': ");
                let detail = e.to_string();
                push_str(&mut msg, detail.as_str());
                assert(msg@ =~= "invalid --state '"@ + s@ + "': "@ + "Unknown run status: "@ + s@);
                return Err(msg);
            },
        },
        None => None,
    };
    let ghost config_view = opt_str_chars(config);
    let ghost pred = |md: RunMetadata| listed(md, config_view, wanted);
    let ghost all = runs@;
    let mut rest = runs;
    let mut kept: Vec<RunMetadata> = Vec::new();
    let mut i: usize = 0;
    assert(all.len() == rest.len());
    while rest.len() > 0
        invariant
            i <= all.len(),
            all.len() <= usize::MAX,
            rest@ == all.skip(i as int),
            pred == (|md: RunMetadata| listed(md, config_view, wanted)),
            config_view == opt_str_chars(config),
            kept@ == all.take(i as int).filter(pred),
        decreases rest@.len(),
    {
        let md = rest.remove(0);
        proof {
            assert(md == all[i as int]);
            assert(all.take(i + 1).drop_last() =~= all.take(i as int));
            assert(all.take(i + 1).last() == md);
            reveal(Seq::filter);
        }
        let config_ok = match config {
            Some(c) => crate::text::str_eq(md.config_id.as_str(), c),
            None => true,
        };
        let status_ok = match wanted {
            Some(st) => md.status == st,
            None => true,
        };
        if config_ok && status_ok {
            kept.push(md);
        }
        proof {
            assert(rest@ =~= all.skip(i + 1));
        }
        i = i + 1;
    }
    assert(all.take(i as int) =~= all);
    Ok(kept)
}

// ---------------------------------------------------------------------------
// `runs ps`: monitor processes.

/// A row of `runs ps`: a monitor process and the run it serves.
#[derive(Debug, Clone)]
pub struct PsRow {
    pub instance_id: String,
    pub run_id: Option<String>,
    pub config_id: Option<String>,
    pub state: String,
    pub active_workers: u32,
    pub uptime_secs: i64,
    pub pid: Option<u32>,
    pub is_alive: bool,
    pub is_stale: bool,
    pub child_pids: Vec<u32>,
    pub stale_child_pids: Vec<u32>,
}

/// The run recorded under a run id; where several are, the last of them.
pub open spec fn run_by_id(runs: Seq<RunMetadata>, run_id: Seq<char>) -> Option<RunMetadata>
    decreases runs.len(),
{
    if runs.len() == 0 {
        None
    } else if runs.last().run_id@ == run_id {
        Some(runs.last())
    } else {
        run_by_id(runs.drop_last(), run_id)
    }
}

/// The run a heartbeat reports on, when it names one that is recorded.
pub open spec fn heartbeat_run(hb: Heartbeat, runs: Seq<RunMetadata>) -> Option<RunMetadata> {
    match hb.run_id {
        Some(id) => run_by_id(runs, id@),
        None => None,
    }
}

/// Whether `runs ps` lists a heartbeat: no config is asked for, or the run it
/// reports on has that config.
pub open spec fn ps_lists(hb: Heartbeat, runs: Seq<RunMetadata>, config: Option<Seq<char>>) -> bool {
    match config {
        Some(c) => heartbeat_run(hb, runs) matches Some(md) && md.config_id@ == c,
        None => true,
    }
}

/// Whether a monitor's process is alive: its instance id names a pid and
/// that pid was found alive.
pub open spec fn monitor_alive(hb: Heartbeat, alive_pids: Seq<u32>) -> bool {
    instance_pid_spec(hb.instance_id@) matches Some(pid) && alive_pids.contains(pid)
}

/// Whether a row describes a heartbeat and the run it reports on: the
/// monitor's identity and state, its pid and liveness, staleness (not alive,
/// or silent for more than a minute at `now`), and the run's config and child
/// pids with those not found alive.
pub open spec fn ps_row_describes(
    row: PsRow,
    hb: Heartbeat,
    md: Option<RunMetadata>,
    alive_pids: Seq<u32>,
    now: i64,
) -> bool {
    &&& row.instance_id@ == hb.instance_id@
    &&& opt_chars(row.run_id) == opt_chars(hb.run_id)
    &&& opt_chars(row.config_id) == match md {
        Some(m) => Some(m.config_id@),
        None => None,
    }
    &&& row.state@ == hb.state.label()
    &&& row.active_workers == hb.active_workers
    &&& row.uptime_secs == hb.uptime_secs
    &&& row.pid == instance_pid_spec(hb.instance_id@)
    &&& row.is_alive == monitor_alive(hb, alive_pids)
    &&& row.is_stale == (!monitor_alive(hb, alive_pids) || now - hb.timestamp > PS_HEARTBEAT_STALE_SECS)
    &&& row.child_pids@ == match md {
        Some(m) => m.child_pids@,
        None => Seq::empty(),
    }
    &&& row.stale_child_pids@ == stale_pids(row.child_pids@, alive_pids)
}

/// The heartbeats `runs ps` lists, in their order.
pub open spec fn ps_listed(heartbeats: Seq<Heartbeat>, runs: Seq<RunMetadata>, config: Option<Seq<char>>) -> Seq<
    Heartbeat,
> {
    heartbeats.filter(|hb: Heartbeat| ps_lists(hb, runs, config))
}

/// Law: without a config asked for, `runs ps` lists every heartbeat, in
/// order.
pub proof fn lemma_ps_lists_every_heartbeat(heartbeats: Seq<Heartbeat>, runs: Seq<RunMetadata>)
    ensures
        ps_listed(heartbeats, runs, None) == heartbeats,
    decreases heartbeats.len(),
{
    reveal(Seq::filter);
    if heartbeats.len() > 0 {
        lemma_ps_lists_every_heartbeat(heartbeats.drop_last(), runs);
        assert(heartbeats.drop_last().push(heartbeats.last()) =~= heartbeats);
    } else {
        assert(ps_listed(heartbeats, runs, None) =~= heartbeats);
    }
}

fn find_run<'a>(runs: &'a [RunMetadata], run_id: &str) -> (r: Option<&'a RunMetadata>)
    ensures
        match r {
            Some(md) => run_by_id(runs@, run_id@) == Some(*md),
            None => run_by_id(runs@, run_id@) is None,
        },
{
    let mut i: usize = runs.len();
    assert(runs@.take(i as int) =~= runs@);
    while i > 0
        invariant
            i <= runs@.len(),
            run_by_id(runs@, run_id@) == run_by_id(runs@.take(i as int), run_id@),
        decreases i,
    {
        let ghost prefix = runs@.take(i as int);
        proof {
            assert(prefix.drop_last() =~= runs@.take(i - 1));
            assert(prefix.last() == runs@[i - 1]);
        }
        if crate::text::str_eq(runs[i - 1].run_id.as_str(), run_id) {
            return Some(&runs[i - 1]);
        }
        i = i - 1;
    }
    None
}

fn copy_pids(pids: &Vec<u32>) -> (r: Vec<u32>)
    ensures
        r@ == pids@,
{
    let mut out: Vec<u32> = Vec::new();
    let mut i: usize = 0;
    while i < pids.len()
        invariant
            i <= pids@.len(),
            out@ == pids@.take(i as int),
        decreases pids@.len() - i,
    {
        out.push(pids[i]);
        proof {
            assert(pids@.take(i + 1) =~= pids@.take(i as int).push(pids@[i as int]));
        }
        i = i + 1;
    }
    assert(pids@.take(pids@.len() as int) =~= pids@);
    out
}

fn ps_row(hb: &Heartbeat, md: Option<&RunMetadata>, alive_pids: &[u32], now: i64) -> (r: PsRow)
    ensures
        ps_row_describes(
            r,
            *hb,
            match md {
                Some(m) => Some(*m),
                None => None,
            },
            alive_pids@,
            now,
        ),
{
    let pid = instance_pid(hb.instance_id.as_str());
    let is_alive = match pid {
        Some(p) => contains_u32(alive_pids, p),
        None => false,
    };
    let child_pids = match md {
        Some(m) => copy_pids(&m.child_pids),
        None => Vec::new(),
    };
    let stale_children = stale_child_pids(child_pids.as_slice(), alive_pids);
    PsRow {
        instance_id: hb.instance_id.clone(),
        run_id: hb.run_id.clone(),
        config_id: match md {
            Some(m) => Some(m.config_id.clone()),
            None => None,
        },
        state: owned(hb.state.as_str()),
        active_workers: hb.active_workers,
        uptime_secs: hb.uptime_secs,
        pid,
        is_alive,
        is_stale: ps_row_is_stale(is_alive, now, hb.timestamp),
        child_pids,
        stale_child_pids: stale_children,
    }
}

/// The rows of `runs ps` for the heartbeats read, in their order: those whose
/// run has the config asked for (all of them when none is), each described
/// with the run it reports on, the pids found alive and the time `now`.
pub fn ps_rows(
    heartbeats: &Vec<Heartbeat>,
    runs: &Vec<RunMetadata>,
    alive_pids: &[u32],
    now: i64,
    config: Option<&str>,
) -> (r: Vec<PsRow>)
    ensures
        r@.len() == ps_listed(heartbeats@, runs@, opt_str_chars(config)).len(),
        forall|i: int|
            0 <= i < r@.len() ==> ps_row_describes(
                #[trigger] r@[i],
                ps_listed(heartbeats@, runs@, opt_str_chars(config))[i],
                heartbeat_run(ps_listed(heartbeats@, runs@, opt_str_chars(config))[i], runs@),
                alive_pids@,
                now,
            ),
{
    let ghost config_view = opt_str_chars(config);
    let ghost pred = |hb: Heartbeat| ps_lists(hb, runs@, config_view);
    let mut rows: Vec<PsRow> = Vec::new();
    let mut i: usize = 0;
    while i < heartbeats.len()
        invariant
            i <= heartbeats@.len(),
            config_view == opt_str_chars(config),
            pred == (|hb: Heartbeat| ps_lists(hb, runs@, config_view)),
            rows@.len() == heartbeats@.take(i as int).filter(pred).len(),
            forall|k: int|
                0 <= k < rows@.len() ==> ps_row_describes(
                    #[trigger] rows@[k],
                    heartbeats@.take(i as int).filter(pred)[k],
                    heartbeat_run(heartbeats@.take(i as int).filter(pred)[k], runs@),
                    alive_pids@,
                    now,
                ),
        decreases heartbeats@.len() - i,
    {
        let hb = &heartbeats[i];
        let ghost prefix = heartbeats@.take(i as int);
        proof {
            assert(heartbeats@.take(i + 1).drop_last() =~= prefix);
            assert(heartbeats@.take(i + 1).last() == *hb);
            reveal(Seq::filter);
        }
        let md: Option<&RunMetadata> = match &hb.run_id {
            Some(id) => find_run(runs.as_slice(), id.as_str()),
            None => None,
        };
        let listed = match config {
            Some(want) => match md {
                Some(m) => crate::text::str_eq(m.config_id.as_str(), want),
                None => false,
            },
            None => true,
        };
        assert(listed == ps_lists(*hb, runs@, config_view));
        if listed {
            let ghost before = rows@;
            let row = ps_row(hb, md, alive_pids, now);
            rows.push(row);
            proof {
                let f = heartbeats@.take(i + 1).filter(pred);
                assert(f == prefix.filter(pred).push(*hb));
                assert forall|k: int| 0 <= k < rows@.len() implies ps_row_describes(
                    #[trigger] rows@[k],
                    f[k],
                    heartbeat_run(f[k], runs@),
                    alive_pids@,
                    now,
                ) by {
                    if k < before.len() {
                        assert(rows@[k] == before[k]);
                        assert(f[k] == prefix.filter(pred)[k]);
                    }
                }
            }
        } else {
            proof {
                assert(heartbeats@.take(i + 1).filter(pred) == prefix.filter(pred));
            }
        }
        i = i + 1;
    }
    assert(heartbeats@.take(heartbeats@.len() as int) =~= heartbeats@);
    rows
}

/// Text right-aligned in a column of `width` characters: padded on the left
/// with spaces when shorter, unchanged when not.
#[verifier::opaque]
pub open spec fn pad_left(text: Seq<char>, width: nat) -> Seq<char> {
    if text.len() >= width {
        text
    } else {
        spaces((width - text.len()) as nat) + text
    }
}

/// Appends `text` right-aligned in a column of `width` characters.
fn push_padded_left(out: &mut String, text: &str, width: usize)
    ensures
        final(out)@ == old(out)@ + pad_left(text@, width as nat),
{
    let ghost start = out@;
    let n = text.unicode_len();
    let mut k = n;
    while k < width
        invariant
            n == text@.len(),
            n <= k,
            k <= width || k == n,
            out@ == start + spaces((k - n) as nat),
        decreases width - k,
    {
        push_char(out, ' ');
        proof {
            assert(spaces((k + 1 - n) as nat) =~= spaces((k - n) as nat).push(' '));
        }
        k = k + 1;
    }
    push_str(out, text);
    proof {
        reveal(pad_left);
        if n >= width {
            assert(spaces(0) =~= Seq::<char>::empty());
        }
        assert(out@ =~= old(out)@ + pad_left(text@, width as nat));
    }
}

/// The heading row of the `runs ps` table.
pub open spec fn ps_header() -> Seq<char> {
    pad_right("INSTANCE"@, 18) + " "@ + pad_right("RUN ID"@, 24) + " "@ + pad_right("STATE"@, 10) + " "@
        + pad_left("WORKERS"@, 7) + " "@ + pad_left("UPTIME"@, 9) + " "@ + pad_left("PID"@, 8) + " "@
        + pad_right("STALE"@, 5) + " "@ + pad_right("CHILD PIDS"@, 20) + "\n"@
}

/// The pid cell of a `runs ps` row.
pub open spec fn opt_pid_text(pid: Option<u32>) -> Seq<char> {
    match pid {
        Some(p) => decimal(p as nat),
        None => "-"@,
    }
}

/// The first cells of a `runs ps` row: instance, run and state.
pub open spec fn ps_row_who(row: PsRow) -> Seq<char> {
    pad_right(truncated(row.instance_id@, 18), 18) + " "@ + pad_right(
        truncated(text_or(row.run_id, "-"@), 24),
        24,
    ) + " "@ + pad_right(row.state@, 10) + " "@
}

/// The last cells of a `runs ps` row: workers, uptime, pid, staleness and
/// child pids.
pub open spec fn ps_row_how(row: PsRow) -> Seq<char> {
    pad_left(decimal(row.active_workers as nat), 7) + " "@ + pad_left(signed_decimal(row.uptime_secs as int), 8)
        + "s"@ + " "@ + pad_left(opt_pid_text(row.pid), 8) + " "@ + pad_right(
        if row.is_stale {
            "yes"@
        } else {
            "no"@
        },
        5,
    ) + " "@ + pad_right(child_pids_text(row.child_pids@, row.stale_child_pids@), 20) + "\n"@
}

/// The `runs ps` table, or a note that there are no processes.
pub open spec fn ps_table_text(rows: Seq<PsRow>) -> Seq<char> {
    if rows.len() == 0 {
        "No processes found.\n"@
    } else {
        ps_header() + concat_lines(rows, |row: PsRow| ps_row_who(row) + ps_row_how(row))
    }
}

fn render_ps_who(row: &PsRow, out: &mut String)
    ensures
        final(out)@ == old(out)@ + ps_row_who(*row),
{
    let instance = truncate_field(row.instance_id.as_str(), 18);
    let run_text: &str = match &row.run_id {
        Some(r) => r.as_str(),
        None => "-",
    };
    assert(run_text@ == text_or(row.run_id, "-"@));
    let run = truncate_field(run_text, 24);
    push_padded(out, instance.as_str(), 18);
    push_str(out, " ");
    push_padded(out, run.as_str(), 24);
    push_str(out, " ");
    push_padded(out, row.state.as_str(), 10);
    push_str(out, " ");
    assert(out@ =~= old(out)@ + ps_row_who(*row));
}

fn render_ps_how(row: &PsRow, out: &mut String)
    ensures
        final(out)@ == old(out)@ + ps_row_how(*row),
{
    let workers = u64_to_string(row.active_workers as u64);
    let uptime = i64_to_string(row.uptime_secs);
    let pid = match row.pid {
        Some(p) => u64_to_string(p as u64),
        None => owned("-"),
    };
    let children = format_child_pids(row.child_pids.as_slice(), row.stale_child_pids.as_slice());
    push_padded_left(out, workers.as_str(), 7);
    push_str(out, " ");
    push_padded_left(out, uptime.as_str(), 8);
    push_str(out, "s");
    push_str(out, " ");
    push_padded_left(out, pid.as_str(), 8);
    push_str(out, " ");
    if row.is_stale {
        push_padded(out, "yes", 5);
    } else {
        push_padded(out, "no", 5);
    }
    push_str(out, " ");
    push_padded(out, children.as_str(), 20);
    push_str(out, "\n");
    assert(out@ =~= old(out)@ + ps_row_how(*row));
}

/// The `runs ps` table in human-readable form.
pub fn ps_table(rows: &Vec<PsRow>) -> (r: String)
    ensures
        r@ == ps_table_text(rows@),
{
    if rows.len() == 0 {
        return owned("No processes found.\n");
    }
    let mut out = String::new();
    push_padded(&mut out, "INSTANCE", 18);
    push_str(&mut out, " ");
    push_padded(&mut out, "RUN ID", 24);
    push_str(&mut out, " ");
    push_padded(&mut out, "STATE", 10);
    push_str(&mut out, " ");
    push_padded_left(&mut out, "WORKERS", 7);
    push_str(&mut out, " ");
    push_padded_left(&mut out, "UPTIME", 9);
    push_str(&mut out, " ");
    push_padded_left(&mut out, "PID", 8);
    push_str(&mut out, " ");
    push_padded(&mut out, "STALE", 5);
    push_str(&mut out, " ");
    push_padded(&mut out, "CHILD PIDS", 20);
    push_str(&mut out, "\n");
    assert(out@ =~= ps_header());
    let ghost line = |row: PsRow| ps_row_who(row) + ps_row_how(row);
    let ghost base = out@;
    let mut i: usize = 0;
    while i < rows.len()
        invariant
            i <= rows@.len(),
            line == (|row: PsRow| ps_row_who(row) + ps_row_how(row)),
            out@ == base + concat_lines(rows@.take(i as int), line),
        decreases rows@.len() - i,
    {
        render_ps_who(&rows[i], &mut out);
        render_ps_how(&rows[i], &mut out);
        proof {
            assert(rows@.take(i + 1).drop_last() =~= rows@.take(i as int));
            assert(rows@.take(i + 1).last() == rows@[i as int]);
        }
        i = i + 1;
    }
    assert(rows@.take(rows@.len() as int) =~= rows@);
    out
}

// ---------------------------------------------------------------------------
// `runs tail`: the last lines of a run's log.

/// The pieces of a byte string between newlines: `n` newlines give `n + 1`
/// pieces.
pub open spec fn newline_pieces(content: Seq<u8>) -> Seq<Seq<u8>>
    decreases content.len(),
{
    if content.len() == 0 {
        seq![Seq::empty()]
    } else {
        let pieces = newline_pieces(content.drop_last());
        if content.last() == NEWLINE {
            pieces.push(Seq::empty())
        } else {
            pieces.update(pieces.len() - 1, pieces.last().push(content.last()))
        }
    }
}

/// The byte `\n`.
pub const NEWLINE: u8 = 10;

/// The lines of a file read line by line: the pieces between newlines,
/// without the empty piece that follows a final newline (or makes up an empty
/// file).
pub open spec fn file_lines(content: Seq<u8>) -> Seq<Seq<u8>> {
    let pieces = newline_pieces(content);
    if pieces.last().len() == 0 {
        pieces.drop_last()
    } else {
        pieces
    }
}

/// The last `n` lines, or all of them when there are fewer.
pub open spec fn last_lines(lines: Seq<Seq<u8>>, n: nat) -> Seq<Seq<u8>> {
    if lines.len() > n {
        lines.subrange(lines.len() - n, lines.len() as int)
    } else {
        lines
    }
}

/// The bytes of each line.
pub open spec fn byte_rows(rows: Seq<Vec<u8>>) -> Seq<Seq<u8>> {
    rows.map_values(|row: Vec<u8>| row@)
}

proof fn lemma_pieces_nonempty(content: Seq<u8>)
    ensures
        newline_pieces(content).len() >= 1,
    decreases content.len(),
{
    if content.len() > 0 {
        lemma_pieces_nonempty(content.drop_last());
    }
}

/// Pieces joined back with a newline between each two.
pub open spec fn rejoined(pieces: Seq<Seq<u8>>) -> Seq<u8>
    decreases pieces.len(),
{
    if pieces.len() <= 1 {
        if pieces.len() == 1 {
            pieces[0]
        } else {
            Seq::empty()
        }
    } else {
        rejoined(pieces.drop_last()) + seq![NEWLINE] + pieces.last()
    }
}

/// Law: cutting a log at its newlines loses nothing: the pieces, joined back
/// with newlines, are the log; and no piece holds a newline.
pub proof fn lemma_newline_pieces_rejoin(content: Seq<u8>)
    ensures
        rejoined(newline_pieces(content)) == content,
        forall|i: int, j: int|
            0 <= i < newline_pieces(content).len() && 0 <= j < newline_pieces(content)[i].len()
                ==> newline_pieces(content)[i][j] != NEWLINE,
    decreases content.len(),
{
    if content.len() == 0 {
        assert(rejoined(seq![Seq::<u8>::empty()]) == Seq::<u8>::empty());
    } else {
        let before = content.drop_last();
        lemma_newline_pieces_rejoin(before);
        lemma_pieces_nonempty(before);
        let p = newline_pieces(before);
        let b = content.last();
        if b == NEWLINE {
            let q = p.push(Seq::<u8>::empty());
            assert(q.drop_last() =~= p);
            assert(rejoined(q) =~= before + seq![NEWLINE]);
            assert(before + seq![NEWLINE] =~= content);
        } else {
            let q = p.update(p.len() - 1, p.last().push(b));
            if p.len() == 1 {
                assert(rejoined(q) == q[0]);
                assert(q[0] =~= before.push(b));
            } else {
                assert(q.drop_last() =~= p.drop_last());
                assert(rejoined(q) =~= rejoined(p).push(b));
            }
            assert(before.push(b) =~= content);
            assert forall|i: int, j: int| 0 <= i < q.len() && 0 <= j < q[i].len() implies q[i][j] != NEWLINE by {
                if i == p.len() - 1 && j == p.last().len() {
                    assert(q[i][j] == b);
                } else if i == p.len() - 1 {
                    assert(q[i][j] == p.last()[j]);
                } else {
                    assert(q[i] == p[i]);
                }
            }
        }
    }
}

/// The lines of a file's contents, in order.
fn split_lines(content: &[u8]) -> (r: Vec<Vec<u8>>)
    ensures
        byte_rows(r@) == file_lines(content@),
{
    let mut done: Vec<Vec<u8>> = Vec::new();
    let mut current: Vec<u8> = Vec::new();
    let mut i: usize = 0;
    while i < content.len()
        invariant
            i <= content@.len(),
            byte_rows(done@).push(current@) == newline_pieces(content@.take(i as int)),
        decreases content@.len() - i,
    {
        let ghost before = content@.take(i as int);
        proof {
            assert(content@.take(i + 1).drop_last() =~= before);
            assert(content@.take(i + 1).last() == content@[i as int]);
            lemma_pieces_nonempty(before);
        }
        let b = content[i];
        if b == NEWLINE {
            let line = current;
            current = Vec::new();
            let ghost old_done = done@;
            done.push(line);
            proof {
                assert(byte_rows(done@) =~= byte_rows(old_done).push(line@));
                assert(byte_rows(done@).push(current@) =~= newline_pieces(before).push(Seq::empty()));
            }
        } else {
            let ghost old_current = current@;
            current.push(b);
            proof {
                let pieces = newline_pieces(before);
                assert(byte_rows(done@).push(current@) =~= pieces.update(
                    pieces.len() - 1,
                    pieces.last().push(b),
                ));
            }
        }
        i = i + 1;
    }
    proof {
        assert(content@.take(content@.len() as int) =~= content@);
    }
    if current.len() > 0 {
        let ghost old_done = done@;
        done.push(current);
        proof {
            assert(byte_rows(done@) =~= byte_rows(old_done).push(current@));
        }
    } else {
        proof {
            assert(byte_rows(done@) =~= byte_rows(done@).push(current@).drop_last());
        }
    }
    done
}

/// The last `n` lines of a file's contents (none when `n` is zero), each as
/// text: bytes that are not UTF-8 become replacement characters.
pub fn log_tail(content: &[u8], n: usize) -> (r: Vec<String>)
    ensures
        r@.len() == last_lines(file_lines(content@), n as nat).len(),
        forall|i: int|
            0 <= i < r@.len() ==> #[trigger] r@[i]@ == utf8_lossy(last_lines(file_lines(content@), n as nat)[i]),
{
    let mut lines = split_lines(content);
    let ghost all = byte_rows(lines@);
    let len = lines.len();
    let start: usize = if len > n {
        len - n
    } else {
        0
    };
    let kept = lines.split_off(start);
    proof {
        assert(byte_rows(kept@) =~= last_lines(all, n as nat));
    }
    let mut out: Vec<String> = Vec::new();
    let mut i: usize = 0;
    while i < kept.len()
        invariant
            i <= kept@.len(),
            byte_rows(kept@) == last_lines(file_lines(content@), n as nat),
            out@.len() == i,
            forall|k: int| 0 <= k < i ==> #[trigger] out@[k]@ == utf8_lossy(kept@[k]@),
        decreases kept@.len() - i,
    {
        let text = lossy_text(kept[i].as_slice());
        out.push(text);
        i = i + 1;
    }
    proof {
        assert forall|k: int| 0 <= k < out@.len() implies #[trigger] out@[k]@ == utf8_lossy(
            last_lines(file_lines(content@), n as nat)[k],
        ) by {
            assert(byte_rows(kept@)[k] == kept@[k]@);
        }
    }
    out
}

/// What `runs tail` says when a run has no log file: where it was looked
/// for, and the run's artifacts that may hold its output.
pub open spec fn missing_log_text(log_path: Seq<char>, artifacts: Seq<ArtifactRecord>) -> Seq<char> {
    "No log file at "@ + log_path + "\n"@ + if artifacts.len() == 0 {
        Seq::empty()
    } else {
        "Artifacts that may contain logs:\n"@ + concat_lines(
            artifacts,
            |a: ArtifactRecord| "  "@ + a.artifact_path@ + "\n"@,
        )
    }
}

/// What `runs tail` prints when a run has no log file.
pub fn missing_log_report(log_path: &str, artifacts: &Vec<ArtifactRecord>) -> (r: String)
    ensures
        r@ == missing_log_text(log_path@, artifacts@),
{
    let mut out = owned("No log file at ");
    push_str(&mut out, log_path);
    push_str(&mut out, "\n");
    if artifacts.len() == 0 {
        assert(out@ =~= missing_log_text(log_path@, artifacts@));
        return out;
    }
    push_str(&mut out, "Artifacts that may contain logs:\n");
    let ghost line = |a: ArtifactRecord| "  "@ + a.artifact_path@ + "\n"@;
    let ghost base = out@;
    let mut i: usize = 0;
    while i < artifacts.len()
        invariant
            i <= artifacts@.len(),
            line == (|a: ArtifactRecord| "  "@ + a.artifact_path@ + "\n"@),
            out@ == base + concat_lines(artifacts@.take(i as int), line),
        decreases artifacts@.len() - i,
    {
        push_str(&mut out, "  ");
        push_str(&mut out, artifacts[i].artifact_path.as_str());
        push_str(&mut out, "\n");
        proof {
            assert(artifacts@.take(i + 1).drop_last() =~= artifacts@.take(i as int));
            assert(artifacts@.take(i + 1).last() == artifacts@[i as int]);
        }
        i = i + 1;
    }
    assert(artifacts@.take(artifacts@.len() as int) =~= artifacts@);
    assert(out@ =~= missing_log_text(log_path@, artifacts@));
    out
}

// ---------------------------------------------------------------------------
// `daemon queue`: leases grouped by status.

/// What the queue shows of a run's external wait: its kind, when it is next
/// polled (RFC 3339), how often it was polled, and the step it resumes at.
#[derive(Debug, Clone)]
pub struct QueueWait {
    pub run_id: String,
    pub wait_kind: String,
    pub next_poll_at: String,
    pub poll_count: u64,
    pub resume_step: String,
}

/// A wait's summary in the queue.
pub open spec fn wait_summary_text(w: QueueWait) -> Seq<char> {
    "kind="@ + w.wait_kind@ + " next_poll_at="@ + w.next_poll_at@ + " poll_count="@ + decimal(
        w.poll_count as nat,
    ) + " resume_step="@ + w.resume_step@
}

/// The first wait recorded for a run.
pub open spec fn wait_for(waits: Seq<QueueWait>, run_id: Seq<char>) -> Option<QueueWait>
    decreases waits.len(),
{
    if waits.len() == 0 {
        None
    } else if waits[0].run_id@ == run_id {
        Some(waits[0])
    } else {
        wait_for(waits.subrange(1, waits.len() as int), run_id)
    }
}

/// The wait part of a lease's queue line: the summary of its run's wait, if
/// its run has one.
pub open spec fn lease_wait_text(l: IssueLease, waits: Seq<QueueWait>) -> Seq<char> {
    match l.run_id {
        Some(r) => match wait_for(waits, r@) {
            Some(w) => " wait="@ + wait_summary_text(w),
            None => Seq::empty(),
        },
        None => Seq::empty(),
    }
}

/// A lease's line in the queue: issue, config, run, whether it holds an
/// active slot, and its run's wait.
pub open spec fn queue_line(l: IssueLease, waits: Seq<QueueWait>) -> Seq<char> {
    "  "@ + l.issue_repo@ + "#"@ + decimal(l.issue_number as nat) + " config="@ + l.config_id@ + " run="@
        + text_or(l.run_id, "-"@) + " active_slot_used="@ + (if l.status == LeaseStatus::Claimed
        || l.status == LeaseStatus::Running {
        "yes"@
    } else {
        "no"@
    }) + lease_wait_text(l, waits) + "\n"@
}

/// The leases with a status, in their order.
pub open spec fn leases_with_status(leases: Seq<IssueLease>, status: LeaseStatus) -> Seq<IssueLease> {
    leases.filter(|l: IssueLease| l.status == status)
}

/// The queue's group of a status: a heading with the count and each lease's
/// line; nothing when no lease has the status.
pub open spec fn queue_group_text(leases: Seq<IssueLease>, status: LeaseStatus, waits: Seq<QueueWait>) -> Seq<
    char,
> {
    let group = leases_with_status(leases, status);
    if group.len() == 0 {
        Seq::empty()
    } else {
        status.label() + " ("@ + decimal(group.len()) + "):\n"@ + concat_lines(
            group,
            |l: IssueLease| queue_line(l, waits),
        )
    }
}

/// The order of the queue's groups.
pub open spec fn queue_order() -> Seq<LeaseStatus> {
    seq![
        LeaseStatus::Pending,
        LeaseStatus::Claimed,
        LeaseStatus::Running,
        LeaseStatus::WaitingExternal,
        LeaseStatus::ReadyToResume,
        LeaseStatus::Completed,
        LeaseStatus::Failed,
        LeaseStatus::Abandoned,
        LeaseStatus::Stale,
    ]
}

/// The queue: each status's group in order, or a note that it is empty.
pub open spec fn queue_text(leases: Seq<IssueLease>, waits: Seq<QueueWait>) -> Seq<char> {
    if leases.len() == 0 {
        "Queue is empty.\n"@
    } else {
        concat_lines(queue_order(), |st: LeaseStatus| queue_group_text(leases, st, waits))
    }
}

fn find_wait<'a>(waits: &'a Vec<QueueWait>, run_id: &str) -> (r: Option<&'a QueueWait>)
    ensures
        match r {
            Some(w) => wait_for(waits@, run_id@) == Some(*w),
            None => wait_for(waits@, run_id@) is None,
        },
{
    let mut i: usize = 0;
    assert(waits@.subrange(0, waits@.len() as int) =~= waits@);
    while i < waits.len()
        invariant
            i <= waits@.len(),
            wait_for(waits@.subrange(i as int, waits@.len() as int), run_id@) == wait_for(waits@, run_id@),
        decreases waits@.len() - i,
    {
        let ghost rest = waits@.subrange(i as int, waits@.len() as int);
        proof {
            assert(rest[0] == waits@[i as int]);
            assert(rest.subrange(1, rest.len() as int) =~= waits@.subrange(i + 1, waits@.len() as int));
        }
        if crate::text::str_eq(waits[i].run_id.as_str(), run_id) {
            return Some(&waits[i]);
        }
        i = i + 1;
    }
    proof {
        assert(waits@.subrange(i as int, waits@.len() as int).len() == 0);
    }
    None
}

fn render_lease_wait(l: &IssueLease, waits: &Vec<QueueWait>, out: &mut String)
    ensures
        final(out)@ == old(out)@ + lease_wait_text(*l, waits@),
{
    match &l.run_id {
        Some(r) => match find_wait(waits, r.as_str()) {
            Some(w) => {
                push_str(out, " wait=");
                push_str(out, "kind=");
                push_str(out, w.wait_kind.as_str());
                push_str(out, " next_poll_at=");
                push_str(out, w.next_poll_at.as_str());
                push_str(out, " poll_count=");
                push_u64(out, w.poll_count);
                push_str(out, " resume_step=");
                push_str(out, w.resume_step.as_str());
                assert(out@ =~= old(out)@ + lease_wait_text(*l, waits@));
            },
            None => {
                assert(out@ =~= old(out)@ + lease_wait_text(*l, waits@));
            },
        },
        None => {
            assert(out@ =~= old(out)@ + lease_wait_text(*l, waits@));
        },
    }
}

fn render_queue_line(l: &IssueLease, waits: &Vec<QueueWait>, out: &mut String)
    ensures
        final(out)@ == old(out)@ + queue_line(*l, waits@),
{
    push_str(out, "  ");
    push_str(out, l.issue_repo.as_str());
    push_str(out, "#");
    push_u64(out, l.issue_number);
    push_str(out, " config=");
    push_str(out, l.config_id.as_str());
    push_str(out, " run=");
    push_text_or(out, &l.run_id, "-");
    push_str(out, " active_slot_used=");
    if l.status.is_active() {
        push_str(out, "yes");
    } else {
        push_str(out, "no");
    }
    render_lease_wait(l, waits, out);
    push_str(out, "\n");
    assert(out@ =~= old(out)@ + queue_line(*l, waits@));
}

fn count_with_status(leases: &Vec<IssueLease>, status: LeaseStatus) -> (r: usize)
    ensures
        r == leases_with_status(leases@, status).len(),
{
    let ghost pred = |l: IssueLease| l.status == status;
    let mut n: usize = 0;
    let mut i: usize = 0;
    while i < leases.len()
        invariant
            i <= leases@.len(),
            pred == (|l: IssueLease| l.status == status),
            n == leases@.take(i as int).filter(pred).len(),
            n <= i,
        decreases leases@.len() - i,
    {
        proof {
            assert(leases@.take(i + 1).drop_last() =~= leases@.take(i as int));
            assert(leases@.take(i + 1).last() == leases@[i as int]);
            reveal(Seq::filter);
        }
        if leases[i].status == status {
            n = n + 1;
        }
        i = i + 1;
    }
    assert(leases@.take(leases@.len() as int) =~= leases@);
    n
}

fn render_queue_group(leases: &Vec<IssueLease>, status: LeaseStatus, waits: &Vec<QueueWait>, out: &mut String)
    ensures
        final(out)@ == old(out)@ + queue_group_text(leases@, status, waits@),
{
    let count = count_with_status(leases, status);
    if count == 0 {
        assert(out@ =~= old(out)@ + queue_group_text(leases@, status, waits@));
        return;
    }
    push_str(out, status.as_str());
    push_str(out, " (");
    push_u64(out, count as u64);
    push_str(out, "):\n");
    let ghost pred = |l: IssueLease| l.status == status;
    let ghost line = |l: IssueLease| queue_line(l, waits@);
    let ghost base = out@;
    let mut i: usize = 0;
    while i < leases.len()
        invariant
            i <= leases@.len(),
            pred == (|l: IssueLease| l.status == status),
            line == (|l: IssueLease| queue_line(l, waits@)),
            out@ == base + concat_lines(leases@.take(i as int).filter(pred), line),
        decreases leases@.len() - i,
    {
        let ghost prefix = leases@.take(i as int);
        proof {
            assert(leases@.take(i + 1).drop_last() =~= prefix);
            assert(leases@.take(i + 1).last() == leases@[i as int]);
            reveal(Seq::filter);
        }
        if leases[i].status == status {
            render_queue_line(&leases[i], waits, out);
            proof {
                let f = leases@.take(i + 1).filter(pred);
                assert(f == prefix.filter(pred).push(leases@[i as int]));
                assert(f.drop_last() =~= prefix.filter(pred));
            }
        }
        i = i + 1;
    }
    assert(leases@.take(leases@.len() as int) =~= leases@);
    assert(out@ =~= old(out)@ + queue_group_text(leases@, status, waits@));
}

/// The lease queue grouped by status, in the fixed status order, with each
/// lease's run wait from `waits`.
pub fn queue_report(leases: &Vec<IssueLease>, waits: &Vec<QueueWait>) -> (r: String)
    ensures
        r@ == queue_text(leases@, waits@),
{
    if leases.len() == 0 {
        return owned("Queue is empty.\n");
    }
    let order = [
        LeaseStatus::Pending,
        LeaseStatus::Claimed,
        LeaseStatus::Running,
        LeaseStatus::WaitingExternal,
        LeaseStatus::ReadyToResume,
        LeaseStatus::Completed,
        LeaseStatus::Failed,
        LeaseStatus::Abandoned,
        LeaseStatus::Stale,
    ];
    assert(order@ =~= queue_order());
    let ghost group = |st: LeaseStatus| queue_group_text(leases@, st, waits@);
    let mut out = String::new();
    let mut k: usize = 0;
    while k < order.len()
        invariant
            k <= order@.len(),
            order@ == queue_order(),
            group == (|st: LeaseStatus| queue_group_text(leases@, st, waits@)),
            out@ == concat_lines(order@.take(k as int), group),
        decreases order@.len() - k,
    {
        render_queue_group(leases, order[k], waits, &mut out);
        proof {
            assert(order@.take(k + 1).drop_last() =~= order@.take(k as int));
            assert(order@.take(k + 1).last() == order@[k as int]);
        }
        k = k + 1;
    }
    assert(order@.take(order@.len() as int) =~= order@);
    out
}

/// The leases of `daemon queue` with the status asked for (all of them when
/// none is), in their order. A status that is not a lease status is refused.
pub fn queue_leases_with_status(leases: Vec<IssueLease>, status: Option<&str>) -> (r: Result<
    Vec<IssueLease>,
    String,
>)
    ensures
        match status {
            Some(s) => match LeaseStatus::from_label(s@) {
                Some(st) => r matches Ok(v) && v@ == leases_with_status(leases@, st),
                None => r matches Err(m) && m@ == "invalid --status: "@ + "Unknown lease status: "@ + s@,
            },
            None => r == Ok::<Vec<IssueLease>, String>(leases),
        },
{
    let wanted = match status {
        None => return Ok(leases),
        Some(s) => match LeaseStatus::parse_str(s) {
            Ok(st) => st,
            Err(e) => {
                let mut msg = owned("invalid --status: ");
                push_str(&mut msg, e.as_str());
                return Err(msg);
            },
        },
    };
    let ghost pred = |l: IssueLease| l.status == wanted;
    let ghost all = leases@;
    let mut rest = leases;
    let mut kept: Vec<IssueLease> = Vec::new();
    let mut i: usize = 0;
    assert(all.len() == rest.len());
    while rest.len() > 0
        invariant
            i <= all.len(),
            all.len() <= usize::MAX,
            rest@ == all.skip(i as int),
            pred == (|l: IssueLease| l.status == wanted),
            kept@ == all.take(i as int).filter(pred),
        decreases rest@.len(),
    {
        let l = rest.remove(0);
        proof {
            assert(l == all[i as int]);
            assert(all.take(i + 1).drop_last() =~= all.take(i as int));
            assert(all.take(i + 1).last() == l);
            reveal(Seq::filter);
        }
        if l.status == wanted {
            kept.push(l);
        }
        proof {
            assert(rest@ =~= all.skip(i + 1));
        }
        i = i + 1;
    }
    assert(all.take(i as int) =~= all);
    Ok(kept)
}

} // verus!
