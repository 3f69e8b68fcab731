//! The monitor's point-in-time view of daemons and runs: run counts by
//! lifecycle phase, the run filter, how many snapshots to take, and the plain
//! text rendering of a snapshot.

use vstd::prelude::*;
use vstd::string::*;
use crate::text::{
    decimal, i64_to_string, joined, owned, string_views, push_char, push_i64, push_str, push_u64, signed_decimal,
    string_eq,
};
use crate::time::rfc3339_of;
use crate::persistence::run_metadata::{RunMetadata, RunStatus};
use crate::persistence::checkpoint::EventRecord;

verus! {

/// Clears the screen and homes the cursor before a snapshot is repainted.
pub const CLEAR_SCREEN: &'static str = "\x1b[2J\x1b[H";

/// One daemon's summarized health for the monitor header.
#[derive(Debug, Clone, PartialEq, Eq)]
pub struct DaemonSummary {
    pub config_id: String,
    pub status: String,
    pub pid: u32,
    pub uptime_secs: i64,
    pub alive: bool,
}

/// Run counts grouped by lifecycle phase.
#[derive(Debug, Clone, Copy, PartialEq, Eq)]
pub struct RunCounts {
    pub active: usize,
    pub queued: usize,
    pub completed: usize,
    pub failed: usize,
}

impl Default for RunCounts {
    fn default() -> (r: Self)
        ensures
            r.active == 0 && r.queued == 0 && r.completed == 0 && r.failed == 0,
    {
        RunCounts { active: 0, queued: 0, completed: 0, failed: 0 }
    }
}

/// Running, starting, remediating or waiting for checks.
pub open spec fn is_active_phase(s: RunStatus) -> bool {
    s == RunStatus::Running || s == RunStatus::Starting || s == RunStatus::Remediating
        || s == RunStatus::WaitingForChecks
}

/// Queued or initialized.
pub open spec fn is_queued_phase(s: RunStatus) -> bool {
    s == RunStatus::Queued || s == RunStatus::Initialized
}

/// Completed or merged.
pub open spec fn is_completed_phase(s: RunStatus) -> bool {
    s == RunStatus::Completed || s == RunStatus::Merged
}

/// Failed, abandoned or cancelled.
pub open spec fn is_failed_phase(s: RunStatus) -> bool {
    s == RunStatus::Failed || s == RunStatus::Abandoned || s == RunStatus::Cancelled
}

/// How many of the runs have a status in the given phase.
pub open spec fn count_in_phase(runs: Seq<RunMetadata>, phase: spec_fn(RunStatus) -> bool) -> nat
    decreases runs.len(),
{
    if runs.len() == 0 {
        0
    } else {
        count_in_phase(runs.drop_last(), phase) + if phase(runs.last().status) {
            1nat
        } else {
            0nat
        }
    }
}

proof fn lemma_count_in_phase_bounded(runs: Seq<RunMetadata>, phase: spec_fn(RunStatus) -> bool)
    ensures
        count_in_phase(runs, phase) <= runs.len(),
    decreases runs.len(),
{
    if runs.len() > 0 {
        lemma_count_in_phase_bounded(runs.drop_last(), phase);
    }
}

/// Law: the phases are disjoint, so the four counts together never exceed
/// the number of runs; the runs they leave out are exactly those in no phase.
pub proof fn lemma_run_counts_partition(runs: Seq<RunMetadata>)
    ensures
        count_in_phase(runs, |s: RunStatus| is_active_phase(s)) + count_in_phase(runs, |s: RunStatus| is_queued_phase(s))
            + count_in_phase(runs, |s: RunStatus| is_completed_phase(s)) + count_in_phase(
            runs,
            |s: RunStatus| is_failed_phase(s),
        ) + count_in_phase(
            runs,
            |s: RunStatus|
                !is_active_phase(s) && !is_queued_phase(s) && !is_completed_phase(s) && !is_failed_phase(s),
        ) == runs.len(),
    decreases runs.len(),
{
    if runs.len() > 0 {
        lemma_run_counts_partition(runs.drop_last());
    }
}

impl RunCounts {
    /// Counts of the runs by phase. Blocked, paused, externally waiting and
    /// ready-to-resume runs fall in no phase: they neither make progress nor
    /// have ended.
    pub fn from_runs(runs: &[RunMetadata]) -> (r: Self)
        ensures
            r.active == count_in_phase(runs@, |s: RunStatus| is_active_phase(s)),
            r.queued == count_in_phase(runs@, |s: RunStatus| is_queued_phase(s)),
            r.completed == count_in_phase(runs@, |s: RunStatus| is_completed_phase(s)),
            r.failed == count_in_phase(runs@, |s: RunStatus| is_failed_phase(s)),
    {
        let ghost active = |s: RunStatus| is_active_phase(s);
        let ghost queued = |s: RunStatus| is_queued_phase(s);
        let ghost completed = |s: RunStatus| is_completed_phase(s);
        let ghost failed = |s: RunStatus| is_failed_phase(s);
        let mut counts = RunCounts { active: 0, queued: 0, completed: 0, failed: 0 };
        let mut i: usize = 0;
        while i < runs.len()
            invariant
                i <= runs@.len(),
                counts.active == count_in_phase(runs@.take(i as int), active),
                counts.queued == count_in_phase(runs@.take(i as int), queued),
                counts.completed == count_in_phase(runs@.take(i as int), completed),
                counts.failed == count_in_phase(runs@.take(i as int), failed),
                active == (|s: RunStatus| is_active_phase(s)),
                queued == (|s: RunStatus| is_queued_phase(s)),
                completed == (|s: RunStatus| is_completed_phase(s)),
                failed == (|s: RunStatus| is_failed_phase(s)),
            decreases runs@.len() - i,
        {
            let ghost prefix = runs@.take(i as int);
            let ghost next = runs@.take(i + 1);
            proof {
                assert(next.drop_last() =~= prefix);
                assert(next.last() == runs@[i as int]);
                lemma_count_in_phase_bounded(prefix, active);
                lemma_count_in_phase_bounded(prefix, queued);
                lemma_count_in_phase_bounded(prefix, completed);
                lemma_count_in_phase_bounded(prefix, failed);
            }
            match runs[i].status {
                RunStatus::Running | RunStatus::Starting | RunStatus::Remediating
                | RunStatus::WaitingForChecks => {
                    counts.active = counts.active + 1;
                },
                RunStatus::Queued | RunStatus::Initialized => {
                    counts.queued = counts.queued + 1;
                },
                RunStatus::Completed | RunStatus::Merged => {
                    counts.completed = counts.completed + 1;
                },
                RunStatus::Failed | RunStatus::Abandoned | RunStatus::Cancelled => {
                    counts.failed = counts.failed + 1;
                },
                RunStatus::Blocked | RunStatus::Paused | RunStatus::WaitingExternal
                | RunStatus::ReadyToResume => {},
            }
            i = i + 1;
        }
        assert(runs@.take(runs@.len() as int) =~= runs@);
        counts
    }
}

/// Narrows the monitored runs; every constraint that is set must hold.
#[derive(Debug, Clone, PartialEq, Eq)]
pub struct MonitorFilter {
    pub config: Option<String>,
    pub run: Option<String>,
    pub issue: Option<i64>,
}

impl Default for MonitorFilter {
    fn default() -> (r: Self)
        ensures
            r.config is None && r.run is None && r.issue is None,
    {
        MonitorFilter { config: None, run: None, issue: None }
    }
}

/// The runs that pass a filter, and the run the detail block focuses on.
#[derive(Debug, Clone)]
pub struct FilteredRuns {
    pub runs: Vec<RunMetadata>,
    pub selected: Option<RunMetadata>,
}

/// Whether two lists hold the same runs in the same order.
pub open spec fn same_runs(a: Seq<RunMetadata>, b: Seq<RunMetadata>) -> bool {
    &&& a.len() == b.len()
    &&& forall|i: int| 0 <= i < a.len() ==> #[trigger] a[i].same_as(b[i])
}

/// Whether two optional runs are both absent or the same run.
pub open spec fn same_run_opt(a: Option<RunMetadata>, b: Option<RunMetadata>) -> bool {
    match (a, b) {
        (Some(x), Some(y)) => x.same_as(y),
        (None, None) => true,
        _ => false,
    }
}

impl MonitorFilter {
    /// Whether a run satisfies every constraint that is set: the config id,
    /// the run id and the issue number each equal the one asked for.
    pub open spec fn matches(self, md: RunMetadata) -> bool {
        &&& (self.config matches Some(c) ==> md.config_id@ == c@)
        &&& (self.run matches Some(r) ==> md.run_id@ == r@)
        &&& (self.issue matches Some(n) ==> md.issue_number == Some(n))
    }

    /// The runs that satisfy the filter, in their order.
    pub open spec fn matching(self, runs: Seq<RunMetadata>) -> Seq<RunMetadata> {
        runs.filter(|md: RunMetadata| self.matches(md))
    }

    /// Law: the filter keeps exactly the runs that satisfy it: every run it
    /// keeps satisfies every constraint that is set, and every run that does
    /// is kept.
    pub proof fn lemma_matching_exactly(self, runs: Seq<RunMetadata>)
        ensures
            forall|i: int| 0 <= i < self.matching(runs).len() ==> self.matches(#[trigger] self.matching(runs)[i]),
            forall|i: int| 0 <= i < runs.len() && self.matches(runs[i]) ==> #[trigger] self.matching(runs).contains(runs[i]),
    {
        let pred = |md: RunMetadata| self.matches(md);
        assert forall|i: int| 0 <= i < self.matching(runs).len() implies self.matches(#[trigger] self.matching(runs)[i]) by {
            runs.lemma_filter_pred(pred, i);
        }
        assert forall|i: int| 0 <= i < runs.len() && self.matches(runs[i]) implies #[trigger] self.matching(runs).contains(runs[i]) by {
            runs.lemma_filter_contains(pred, i);
        }
    }

    /// Law: stated on the runs' own fields, the filter keeps exactly the
    /// runs with the config id, run id and issue number asked for (each only
    /// when asked for): a run without an issue number never passes an issue
    /// filter, and a run with every asked-for value is never dropped.
    pub proof fn lemma_kept_runs_meet_constraints(self, runs: Seq<RunMetadata>)
        ensures
            forall|i: int|
                #![trigger self.matching(runs)[i]]
                0 <= i < self.matching(runs).len() ==> {
                    &&& (self.issue matches Some(n) ==> self.matching(runs)[i].issue_number == Some(n))
                    &&& (self.config matches Some(c) ==> self.matching(runs)[i].config_id@ == c@)
                    &&& (self.run matches Some(x) ==> self.matching(runs)[i].run_id@ == x@)
                },
            forall|i: int|
                #![trigger runs[i]]
                0 <= i < runs.len() && (self.issue matches Some(n) ==> runs[i].issue_number == Some(n)) && (
                self.config matches Some(c) ==> runs[i].config_id@ == c@) && (self.run matches Some(x)
                    ==> runs[i].run_id@ == x@) ==> self.matching(runs).contains(runs[i]),
    {
        let pred = |md: RunMetadata| self.matches(md);
        assert forall|i: int| #![trigger self.matching(runs)[i]] 0 <= i < self.matching(runs).len() implies {
            &&& (self.issue matches Some(n) ==> self.matching(runs)[i].issue_number == Some(n))
            &&& (self.config matches Some(c) ==> self.matching(runs)[i].config_id@ == c@)
            &&& (self.run matches Some(x) ==> self.matching(runs)[i].run_id@ == x@)
        } by {
            runs.lemma_filter_pred(pred, i);
        }
        assert forall|i: int|
            #![trigger runs[i]]
            0 <= i < runs.len() && (self.issue matches Some(n) ==> runs[i].issue_number == Some(n)) && (
            self.config matches Some(c) ==> runs[i].config_id@ == c@) && (self.run matches Some(x)
                ==> runs[i].run_id@ == x@) implies self.matching(runs).contains(runs[i]) by {
            runs.lemma_filter_contains(pred, i);
        }
    }

    /// Whether no constraint is set.
    pub fn is_empty(&self) -> (r: bool)
        ensures
            r == (self.config is None && self.run is None && self.issue is None),
    {
        self.config.is_none() && self.run.is_none() && self.issue.is_none()
    }

    /// Whether a daemon of the given config passes the filter: no config is
    /// asked for, or it is this one.
    pub fn admits_config(&self, config_id: &str) -> (r: bool)
        ensures
            r == (self.config matches Some(c) ==> config_id@ == c@),
    {
        match &self.config {
            Some(c) => crate::text::str_eq(config_id, c.as_str()),
            None => true,
        }
    }

    fn matches_run(&self, md: &RunMetadata) -> (r: bool)
        ensures
            r == self.matches(*md),
            r <==> {
                &&& (self.issue matches Some(n) ==> md.issue_number == Some(n))
                &&& (self.config matches Some(c) ==> md.config_id@ == c@)
                &&& (self.run matches Some(x) ==> md.run_id@ == x@)
            },
    {
        if let Some(config) = &self.config {
            if !string_eq(&md.config_id, config) {
                return false;
            }
        }
        if let Some(run) = &self.run {
            if !string_eq(&md.run_id, run) {
                return false;
            }
        }
        if let Some(issue) = self.issue {
            match md.issue_number {
                Some(n) => {
                    if n != issue {
                        return false;
                    }
                },
                None => {
                    return false;
                },
            }
        }
        true
    }

    /// Index of the focused run among already filtered runs: the first with
    /// the requested run id when one is set, else the first.
    fn select_index(&self, filtered: &Vec<RunMetadata>) -> (r: Option<usize>)
        ensures
            match self.run {
                Some(run) => match r {
                    Some(j) => j < filtered@.len() && filtered@[j as int].run_id@ == run@
                        && forall|k: int| 0 <= k < j ==> #[trigger] filtered@[k].run_id@ != run@,
                    None => forall|k: int| 0 <= k < filtered@.len() ==> #[trigger] filtered@[k].run_id@ != run@,
                },
                None => r == (if filtered@.len() > 0 { Some(0usize) } else { None }),
            },
    {
        match &self.run {
            Some(run) => {
                let mut i: usize = 0;
                while i < filtered.len()
                    invariant
                        i <= filtered@.len(),
                        self.run == Some(*run),
                        forall|k: int| 0 <= k < i ==> #[trigger] filtered@[k].run_id@ != run@,
                    decreases filtered@.len() - i,
                {
                    if string_eq(&filtered[i].run_id, run) {
                        return Some(i);
                    }
                    i = i + 1;
                }
                None
            },
            None => {
                if filtered.len() > 0 {
                    Some(0)
                } else {
                    None
                }
            },
        }
    }

    /// The runs that satisfy the filter, in their order, and the focused run:
    /// the first of them (with a run id set, every one of them has that id),
    /// or none when no run passes.
    pub fn apply(&self, runs: &[RunMetadata]) -> (r: FilteredRuns)
        ensures
            same_runs(r.runs@, self.matching(runs@)),
            same_run_opt(
                r.selected,
                if self.matching(runs@).len() > 0 {
                    Some(self.matching(runs@)[0])
                } else {
                    None
                },
            ),
            forall|i: int|
                #![trigger r.runs@[i]]
                0 <= i < r.runs@.len() ==> {
                    &&& (self.issue matches Some(n) ==> r.runs@[i].issue_number == Some(n))
                    &&& (self.config matches Some(c) ==> r.runs@[i].config_id@ == c@)
                    &&& (self.run matches Some(x) ==> r.runs@[i].run_id@ == x@)
                },
    {
        proof {
            self.lemma_kept_runs_meet_constraints(runs@);
        }
        let ghost pred = |md: RunMetadata| self.matches(md);
        let mut filtered: Vec<RunMetadata> = Vec::new();
        let mut i: usize = 0;
        while i < runs.len()
            invariant
                i <= runs@.len(),
                pred == (|md: RunMetadata| self.matches(md)),
                same_runs(filtered@, runs@.take(i as int).filter(pred)),
            decreases runs@.len() - i,
        {
            let ghost prefix = runs@.take(i as int);
            proof {
                assert(runs@.take(i + 1).drop_last() =~= prefix);
                assert(runs@.take(i + 1).last() == runs@[i as int]);
            }
            let keep = self.matches_run(&runs[i]);
            proof {
                reveal(Seq::filter);
                let f = runs@.take(i + 1).filter(pred);
                if keep {
                    assert(f == prefix.filter(pred).push(runs@[i as int]));
                } else {
                    assert(f == prefix.filter(pred));
                }
            }
            if keep {
                let ghost before = filtered@;
                let copy = runs[i].duplicate();
                filtered.push(copy);
                proof {
                    let f = runs@.take(i + 1).filter(pred);
                    assert forall|k: int| 0 <= k < filtered@.len() implies #[trigger] filtered@[k].same_as(f[k]) by {
                        if k < before.len() {
                            assert(filtered@[k] == before[k]);
                            assert(f[k] == prefix.filter(pred)[k]);
                        }
                    }
                }
            }
            i = i + 1;
        }
        assert(runs@.take(runs@.len() as int) =~= runs@);
        proof {
            let f = self.matching(runs@);
            assert(runs@.filter(pred) == f);
            if f.len() > 0 {
                runs@.lemma_filter_pred(pred, 0);
                assert(self.matches(f[0]));
                assert(filtered@[0].same_as(f[0]));
            }
        }
        proof {
            let f = self.matching(runs@);
            assert forall|i: int| #![trigger filtered@[i]] 0 <= i < filtered@.len() implies {
                &&& (self.issue matches Some(n) ==> filtered@[i].issue_number == Some(n))
                &&& (self.config matches Some(c) ==> filtered@[i].config_id@ == c@)
                &&& (self.run matches Some(x) ==> filtered@[i].run_id@ == x@)
            } by {
                assert(filtered@[i].same_as(f[i]));
            }
        }
        let selected = match self.select_index(&filtered) {
            Some(j) => Some(filtered[j].duplicate()),
            None => None,
        };
        FilteredRuns { runs: filtered, selected }
    }
}

/// A complete point-in-time snapshot of daemon and run state.
#[derive(Debug, Clone)]
pub struct MonitorSnapshot {
    pub generated_at: String,
    pub daemons: Vec<DaemonSummary>,
    pub counts: RunCounts,
    pub runs: Vec<RunMetadata>,
    pub selected: Option<RunMetadata>,
    pub recent_events: Vec<EventRecord>,
}

/// How many snapshots to render before exiting: `once` means exactly one,
/// whatever `times` says; otherwise `times`, where `None` means until
/// interrupted.
pub fn resolve_snapshot_count(once: bool, times: Option<u32>) -> (r: Option<u32>)
    ensures
        r == (if once { Some(1u32) } else { times }),
{
    if once {
        Some(1)
    } else {
        times
    }
}

/// A field cut to `width` characters for a fixed-width table: unchanged when
/// it fits; else its first `width` characters when `width` is at most one;
/// else its first `width - 1` characters and an ellipsis.
pub open spec fn truncated(value: Seq<char>, width: nat) -> Seq<char> {
    if value.len() <= width {
        value
    } else if width <= 1 {
        value.take(width as int)
    } else {
        value.take(width - 1).push('\u{2026}')
    }
}

/// Law: a cut field fits its column: it has exactly `width` characters when
/// the field is longer, else all of them.
pub proof fn lemma_truncated_fits(value: Seq<char>, width: nat)
    ensures
        truncated(value, width).len() == if value.len() <= width { value.len() } else { width },
        value.len() <= width ==> truncated(value, width) == value,
{
}

/// Cuts a field to `width` characters for a fixed-width table.
pub fn truncate_field(value: &str, width: usize) -> (r: String)
    ensures
        r@ == truncated(value@, width as nat),
{
    let n = value.unicode_len();
    if n <= width {
        owned(value)
    } else if width <= 1 {
        let head = value.substring_char(0, width);
        assert(head@ =~= value@.take(width as int));
        owned(head)
    } else {
        let head = value.substring_char(0, width - 1);
        assert(head@ =~= value@.take(width - 1));
        let mut s = owned(head);
        push_char(&mut s, '\u{2026}');
        s
    }
}

/// The line that separates snapshots when they are appended.
pub open spec fn separator_text(generated_at: Seq<char>) -> Seq<char> {
    "===== monitor snapshot @ "@ + generated_at + " ====="@
}

/// Builds the line that separates snapshots when they are appended.
pub fn separator_line(generated_at: &str) -> (r: String)
    ensures
        r@ == separator_text(generated_at@),
{
    let mut s = owned("===== monitor snapshot @ ");
    push_str(&mut s, generated_at);
    push_str(&mut s, " =====");
    s
}

/// `std::fmt::Error`, the error type of rendering a snapshot.
#[verifier::external_type_specification]
#[verifier::external_body]
pub struct ExFmtError(std::fmt::Error);

/// `n` spaces.
pub open spec fn spaces(n: nat) -> Seq<char> {
    Seq::new(n, |i: int| ' ')
}

/// Text left-aligned in a column of `width` characters: padded on the right
/// with spaces when shorter, unchanged when not.
#[verifier::opaque]
pub open spec fn pad_right(text: Seq<char>, width: nat) -> Seq<char> {
    if text.len() >= width {
        text
    } else {
        text + spaces((width - text.len()) as nat)
    }
}

/// Appends `text` left-aligned in a column of `width` characters.
pub(crate) fn push_padded(out: &mut String, text: &str, width: usize)
    ensures
        final(out)@ == old(out)@ + pad_right(text@, width as nat),
{
    push_str(out, text);
    let ghost start = out@;
    let n = text.unicode_len();
    let mut k = n;
    while k < width
        invariant
            n == text@.len(),
            n <= k,
            k <= width || k == n,
            out@ == start + spaces((k - n) as nat),
        decreases width - k,
    {
        push_char(out, ' ');
        proof {
            assert(spaces((k + 1 - n) as nat) =~= spaces((k - n) as nat).push(' '));
        }
        k = k + 1;
    }
    proof {
        reveal(pad_right);
        if n >= width {
            assert(spaces(0) =~= Seq::<char>::empty());
        }
        assert(out@ =~= old(out)@ + pad_right(text@, width as nat));
    }
}

/// The lines for each item, in order.
pub open spec fn concat_lines<T>(items: Seq<T>, line: spec_fn(T) -> Seq<char>) -> Seq<char>
    decreases items.len(),
{
    if items.len() == 0 {
        Seq::empty()
    } else {
        concat_lines(items.drop_last(), line) + line(items.last())
    }
}

/// One daemon's line: id, status, pid, uptime and whether it is alive.
pub open spec fn daemon_line(d: DaemonSummary) -> Seq<char> {
    "  "@ + d.config_id@ + " status="@ + d.status@ + " pid="@ + decimal(d.pid as nat)
        + " uptime="@ + signed_decimal(d.uptime_secs as int) + "s ("@
        + (if d.alive { "alive"@ } else { "stale"@ }) + ")\n"@
}

/// The daemon section.
pub open spec fn daemons_text(daemons: Seq<DaemonSummary>) -> Seq<char> {
    "Daemons:\n"@ + if daemons.len() == 0 {
        "  (no daemons running)\n"@
    } else {
        concat_lines(daemons, |d: DaemonSummary| daemon_line(d))
    }
}

fn render_daemon(d: &DaemonSummary, out: &mut String)
    ensures
        final(out)@ == old(out)@ + daemon_line(*d),
{
    push_str(out, "  ");
    push_str(out, d.config_id.as_str());
    push_str(out, " status=");
    push_str(out, d.status.as_str());
    push_str(out, " pid=");
    push_u64(out, d.pid as u64);
    push_str(out, " uptime=");
    push_i64(out, d.uptime_secs);
    push_str(out, "s (");
    if d.alive {
        push_str(out, "alive");
    } else {
        push_str(out, "stale");
    }
    push_str(out, ")\n");
    assert(out@ =~= old(out)@ + daemon_line(*d));
}

fn render_daemons(daemons: &Vec<DaemonSummary>, out: &mut String)
    ensures
        final(out)@ == old(out)@ + daemons_text(daemons@),
{
    push_str(out, "Daemons:\n");
    if daemons.len() == 0 {
        push_str(out, "  (no daemons running)\n");
        assert(out@ =~= old(out)@ + daemons_text(daemons@));
        return;
    }
    let ghost line = |d: DaemonSummary| daemon_line(d);
    let ghost start = out@;
    let mut i: usize = 0;
    while i < daemons.len()
        invariant
            i <= daemons@.len(),
            line == (|d: DaemonSummary| daemon_line(d)),
            out@ == start + concat_lines(daemons@.take(i as int), line),
        decreases daemons@.len() - i,
    {
        render_daemon(&daemons[i], out);
        proof {
            assert(daemons@.take(i + 1).drop_last() =~= daemons@.take(i as int));
            assert(daemons@.take(i + 1).last() == daemons@[i as int]);
        }
        i = i + 1;
    }
    assert(daemons@.take(daemons@.len() as int) =~= daemons@);
    assert(out@ =~= old(out)@ + daemons_text(daemons@));
}

/// The counts line.
pub open spec fn counts_text(c: RunCounts) -> Seq<char> {
    "Runs: active="@ + decimal(c.active as nat) + " queued="@ + decimal(c.queued as nat)
        + " completed="@ + decimal(c.completed as nat) + " failed="@ + decimal(c.failed as nat)
        + "\n"@
}

fn render_counts(c: &RunCounts, out: &mut String)
    ensures
        final(out)@ == old(out)@ + counts_text(*c),
{
    push_str(out, "Runs: active=");
    push_u64(out, c.active as u64);
    push_str(out, " queued=");
    push_u64(out, c.queued as u64);
    push_str(out, " completed=");
    push_u64(out, c.completed as u64);
    push_str(out, " failed=");
    push_u64(out, c.failed as u64);
    push_str(out, "\n");
    assert(out@ =~= old(out)@ + counts_text(*c));
}

/// An optional number in a table cell: its decimal text, or `-`.
pub open spec fn opt_number_text(n: Option<i64>) -> Seq<char> {
    match n {
        Some(v) => signed_decimal(v as int),
        None => "-"@,
    }
}

/// An optional text, or `fallback` when absent.
pub open spec fn text_or(o: Option<String>, fallback: Seq<char>) -> Seq<char> {
    match o {
        Some(t) => t@,
        None => fallback,
    }
}

/// When a run was last updated: its update time, else its creation time, in
/// RFC 3339.
pub open spec fn updated_text(md: RunMetadata) -> Seq<char> {
    let t = match md.updated_at {
        Some(u) => u,
        None => md.created_at,
    };
    rfc3339_of(t.secs, t.nanos)
}

/// The header of the run table.
pub open spec fn run_table_header() -> Seq<char> {
    pad_right("CONFIG"@, 20) + " "@ + pad_right("RUN ID"@, 28) + " "@ + pad_right("ISSUE"@, 7)
        + " "@ + pad_right("PR"@, 7) + " "@ + pad_right("STATE"@, 11) + " "@
        + pad_right("STEP"@, 16) + " "@ + pad_right("UPDATED"@, 25) + "\n"@
}

/// The first four cells of a run's row: config, run id, issue and pull request.
pub open spec fn run_row_ids(md: RunMetadata) -> Seq<char> {
    pad_right(truncated(md.config_id@, 20), 20) + " "@ + pad_right(truncated(md.run_id@, 28), 28)
        + " "@ + pad_right(opt_number_text(md.issue_number), 7) + " "@
        + pad_right(opt_number_text(md.pr_number), 7) + " "@
}

/// The last three cells of a run's row, and the line's end: state, step and
/// update time.
pub open spec fn run_row_progress(md: RunMetadata) -> Seq<char> {
    pad_right(md.status.label(), 11) + " "@ + pad_right(truncated(text_or(md.current_step, "-"@), 16), 16)
        + " "@ + pad_right(updated_text(md), 25) + "\n"@
}

/// One row of the run table.
pub open spec fn run_row(md: RunMetadata) -> Seq<char> {
    run_row_ids(md) + run_row_progress(md)
}

/// The run table, or a note that there are no runs.
pub open spec fn run_table_text(runs: Seq<RunMetadata>) -> Seq<char> {
    if runs.len() == 0 {
        "No runs found.\n"@
    } else {
        run_table_header() + concat_lines(runs, |md: RunMetadata| run_row(md))
    }
}

pub(crate) fn opt_number_string(n: Option<i64>) -> (r: String)
    ensures
        r@ == opt_number_text(n),
{
    match n {
        Some(v) => i64_to_string(v),
        None => owned("-"),
    }
}

fn render_run_header(out: &mut String)
    ensures
        final(out)@ == old(out)@ + run_table_header(),
{
    push_padded(out, "CONFIG", 20);
    push_str(out, " ");
    push_padded(out, "RUN ID", 28);
    push_str(out, " ");
    push_padded(out, "ISSUE", 7);
    push_str(out, " ");
    push_padded(out, "PR", 7);
    push_str(out, " ");
    push_padded(out, "STATE", 11);
    push_str(out, " ");
    push_padded(out, "STEP", 16);
    push_str(out, " ");
    push_padded(out, "UPDATED", 25);
    push_str(out, "\n");
    assert(out@ =~= old(out)@ + run_table_header());
}

fn render_run_ids(md: &RunMetadata, out: &mut String)
    ensures
        final(out)@ == old(out)@ + run_row_ids(*md),
{
    let config = truncate_field(md.config_id.as_str(), 20);
    let run = truncate_field(md.run_id.as_str(), 28);
    let issue = opt_number_string(md.issue_number);
    let pr = opt_number_string(md.pr_number);
    push_padded(out, config.as_str(), 20);
    push_str(out, " ");
    push_padded(out, run.as_str(), 28);
    push_str(out, " ");
    push_padded(out, issue.as_str(), 7);
    push_str(out, " ");
    push_padded(out, pr.as_str(), 7);
    push_str(out, " ");
    assert(out@ =~= old(out)@ + run_row_ids(*md));
}

fn render_run_progress(md: &RunMetadata, out: &mut String)
    ensures
        final(out)@ == old(out)@ + run_row_progress(*md),
{
    let step_text: &str = match &md.current_step {
        Some(step) => step.as_str(),
        None => "-",
    };
    assert(step_text@ == text_or(md.current_step, "-"@));
    let step = truncate_field(step_text, 16);
    let updated = match md.updated_at {
        Some(u) => u.to_rfc3339(),
        None => md.created_at.to_rfc3339(),
    };
    push_padded(out, md.status.as_str(), 11);
    push_str(out, " ");
    push_padded(out, step.as_str(), 16);
    push_str(out, " ");
    push_padded(out, updated.as_str(), 25);
    push_str(out, "\n");
    assert(out@ =~= old(out)@ + run_row_progress(*md));
}

fn render_run_row(md: &RunMetadata, out: &mut String)
    ensures
        final(out)@ == old(out)@ + run_row(*md),
{
    render_run_ids(md, out);
    render_run_progress(md, out);
    assert(out@ =~= old(out)@ + run_row(*md));
}

pub(crate) fn render_run_table(runs: &Vec<RunMetadata>, out: &mut String)
    ensures
        final(out)@ == old(out)@ + run_table_text(runs@),
{
    if runs.len() == 0 {
        push_str(out, "No runs found.\n");
        return;
    }
    render_run_header(out);
    let ghost line = |md: RunMetadata| run_row(md);
    let ghost start = out@;
    let mut i: usize = 0;
    while i < runs.len()
        invariant
            i <= runs@.len(),
            line == (|md: RunMetadata| run_row(md)),
            out@ == start + concat_lines(runs@.take(i as int), line),
        decreases runs@.len() - i,
    {
        render_run_row(&runs[i], out);
        proof {
            assert(runs@.take(i + 1).drop_last() =~= runs@.take(i as int));
            assert(runs@.take(i + 1).last() == runs@[i as int]);
        }
        i = i + 1;
    }
    assert(runs@.take(runs@.len() as int) =~= runs@);
    assert(out@ =~= old(out)@ + run_table_text(runs@));
}

/// What a run does next: its candidate steps joined by commas, else that
/// nothing follows a terminal run, else that it is not known yet.
pub open spec fn next_step_text(md: RunMetadata) -> Seq<char> {
    if md.next_step_candidates@.len() == 0 {
        if md.status.terminal() {
            "none (run is terminal)"@
        } else {
            "unknown until current step completes"@
        }
    } else {
        joined(string_views(md.next_step_candidates@), ", "@)
    }
}

/// A run's process: its pid and whether it is stale, or unknown when no pid
/// was recorded.
pub open spec fn pid_text(md: RunMetadata, stale: bool) -> Seq<char> {
    match md.process_pid {
        Some(pid) => decimal(pid as nat) + " ("@ + (if stale { "stale"@ } else { "alive"@ }) + ")"@,
        None => "unknown"@,
    }
}

/// The first lines of the selected run's block: id, status and current step.
pub open spec fn selected_head(md: RunMetadata) -> Seq<char> {
    "Selected run: "@ + md.run_id@ + "\n"@ + "  Status: "@ + md.status.label() + "\n"@
        + "  Current step: "@ + text_or(md.current_step, "(none)"@) + "\n"@
}

/// The last lines of the selected run's block: previous step and outcome,
/// next steps and process.
pub open spec fn selected_tail(md: RunMetadata, stale: bool) -> Seq<char> {
    "  Previous: "@ + text_or(md.previous_step, "(none)"@) + " -> "@
        + text_or(md.previous_outcome, "(none)"@) + "\n"@ + "  Next: "@ + next_step_text(md)
        + "\n"@ + "  PID: "@ + pid_text(md, stale) + "\n"@
}

/// The selected run's block, empty when no run is selected.
pub open spec fn selected_text(selected: Option<RunMetadata>, stale: bool) -> Seq<char> {
    match selected {
        Some(md) => selected_head(md) + selected_tail(md, stale),
        None => Seq::empty(),
    }
}

pub(crate) fn join_strings(items: &Vec<String>, sep: &str) -> (r: String)
    ensures
        r@ == joined(string_views(items@), sep@),
{
    let ghost views = string_views(items@);
    if items.len() == 0 {
        let s = String::new();
        assert(s@ =~= joined(views, sep@));
        return s;
    }
    let mut s = items[0].clone();
    proof {
        assert(views.take(1).len() == 1);
        assert(views.take(1)[0] == items@[0]@);
    }
    let mut i: usize = 1;
    while i < items.len()
        invariant
            1 <= i <= items@.len(),
            views == string_views(items@),
            s@ == joined(views.take(i as int), sep@),
        decreases items@.len() - i,
    {
        push_str(&mut s, sep);
        push_str(&mut s, items[i].as_str());
        proof {
            assert(views.take(i + 1).drop_last() =~= views.take(i as int));
            assert(views.take(i + 1).last() == items@[i as int]@);
        }
        i = i + 1;
    }
    assert(views.take(items@.len() as int) =~= views);
    s
}

pub(crate) fn render_next_step(md: &RunMetadata, out: &mut String)
    ensures
        final(out)@ == old(out)@ + next_step_text(*md),
{
    if md.next_step_candidates.len() == 0 {
        if md.status.is_terminal() {
            push_str(out, "none (run is terminal)");
        } else {
            push_str(out, "unknown until current step completes");
        }
    } else {
        let joined_text = join_strings(&md.next_step_candidates, ", ");
        push_str(out, joined_text.as_str());
    }
}

pub(crate) fn render_pid(md: &RunMetadata, stale: bool, out: &mut String)
    ensures
        final(out)@ == old(out)@ + pid_text(*md, stale),
{
    match md.process_pid {
        Some(pid) => {
            push_u64(out, pid as u64);
            push_str(out, " (");
            if stale {
                push_str(out, "stale");
            } else {
                push_str(out, "alive");
            }
            push_str(out, ")");
            assert(out@ =~= old(out)@ + pid_text(*md, stale));
        },
        None => {
            push_str(out, "unknown");
        },
    }
}

pub(crate) fn push_text_or(out: &mut String, o: &Option<String>, fallback: &str)
    ensures
        final(out)@ == old(out)@ + text_or(*o, fallback@),
{
    match o {
        Some(t) => push_str(out, t.as_str()),
        None => push_str(out, fallback),
    }
}

fn render_selected_head(md: &RunMetadata, out: &mut String)
    ensures
        final(out)@ == old(out)@ + selected_head(*md),
{
    push_str(out, "Selected run: ");
    push_str(out, md.run_id.as_str());
    push_str(out, "\n");
    push_str(out, "  Status: ");
    push_str(out, md.status.as_str());
    push_str(out, "\n");
    push_str(out, "  Current step: ");
    push_text_or(out, &md.current_step, "(none)");
    push_str(out, "\n");
    assert(out@ =~= old(out)@ + selected_head(*md));
}

fn render_selected_tail(md: &RunMetadata, stale: bool, out: &mut String)
    ensures
        final(out)@ == old(out)@ + selected_tail(*md, stale),
{
    push_str(out, "  Previous: ");
    push_text_or(out, &md.previous_step, "(none)");
    push_str(out, " -> ");
    push_text_or(out, &md.previous_outcome, "(none)");
    push_str(out, "\n");
    push_str(out, "  Next: ");
    render_next_step(md, out);
    push_str(out, "\n");
    push_str(out, "  PID: ");
    render_pid(md, stale, out);
    push_str(out, "\n");
    assert(out@ =~= old(out)@ + selected_tail(*md, stale));
}

fn render_selected(selected: &Option<RunMetadata>, stale: bool, out: &mut String)
    ensures
        final(out)@ == old(out)@ + selected_text(*selected, stale),
{
    match selected {
        Some(md) => {
            render_selected_head(md, out);
            render_selected_tail(md, stale, out);
            assert(out@ =~= old(out)@ + selected_text(*selected, stale));
        },
        None => {
            assert(out@ =~= old(out)@ + selected_text(*selected, stale));
        },
    }
}

/// One event's line: time, step, outcome and kind.
pub open spec fn event_line(e: EventRecord) -> Seq<char> {
    "  ["@ + rfc3339_of(e.timestamp.secs, e.timestamp.nanos) + "] "@ + e.step_id@ + " -> "@
        + e.outcome@ + " ("@ + e.event_type@ + ")\n"@
}

/// The last `tail` events, or all of them when there are fewer.
pub open spec fn shown_events(events: Seq<EventRecord>, tail: nat) -> Seq<EventRecord> {
    if events.len() > tail {
        events.subrange(events.len() - tail, events.len() as int)
    } else {
        events
    }
}

/// The recent events section: absent when `tail` is zero, else a heading and
/// the last `tail` events, or a note that there are none.
pub open spec fn events_text(events: Seq<EventRecord>, tail: nat) -> Seq<char> {
    if tail == 0 {
        Seq::empty()
    } else {
        "Recent events:\n"@ + if shown_events(events, tail).len() == 0 {
            "  (no events)\n"@
        } else {
            concat_lines(shown_events(events, tail), |e: EventRecord| event_line(e))
        }
    }
}

pub(crate) fn render_event(e: &EventRecord, out: &mut String)
    ensures
        final(out)@ == old(out)@ + event_line(*e),
{
    let when = e.timestamp.to_rfc3339();
    push_str(out, "  [");
    push_str(out, when.as_str());
    push_str(out, "] ");
    push_str(out, e.step_id.as_str());
    push_str(out, " -> ");
    push_str(out, e.outcome.as_str());
    push_str(out, " (");
    push_str(out, e.event_type.as_str());
    push_str(out, ")\n");
    assert(out@ =~= old(out)@ + event_line(*e));
}

fn render_events(events: &Vec<EventRecord>, tail: usize, out: &mut String)
    ensures
        final(out)@ == old(out)@ + events_text(events@, tail as nat),
{
    if tail == 0 {
        assert(out@ =~= old(out)@ + events_text(events@, tail as nat));
        return;
    }
    push_str(out, "Recent events:\n");
    let start: usize = if events.len() > tail {
        events.len() - tail
    } else {
        0
    };
    assert(events@.subrange(start as int, events@.len() as int) =~= shown_events(events@, tail as nat));
    if start == events.len() {
        push_str(out, "  (no events)\n");
        assert(out@ =~= old(out)@ + events_text(events@, tail as nat));
        return;
    }
    let ghost line = |e: EventRecord| event_line(e);
    let ghost base = out@;
    let mut i: usize = start;
    proof {
        assert(events@.subrange(start as int, start as int) =~= Seq::<EventRecord>::empty());
    }
    while i < events.len()
        invariant
            start <= i <= events@.len(),
            line == (|e: EventRecord| event_line(e)),
            out@ == base + concat_lines(events@.subrange(start as int, i as int), line),
        decreases events@.len() - i,
    {
        render_event(&events[i], out);
        proof {
            assert(events@.subrange(start as int, i + 1).drop_last()
                =~= events@.subrange(start as int, i as int));
            assert(events@.subrange(start as int, i + 1).last() == events@[i as int]);
        }
        i = i + 1;
    }
    assert(out@ =~= old(out)@ + events_text(events@, tail as nat));
}

/// The whole text of a snapshot: daemons, counts, run table, the selected
/// run's block and the recent events. `stale` says whether the selected
/// run's recorded process is no longer alive.
pub open spec fn snapshot_text(snapshot: MonitorSnapshot, tail: nat, stale: bool) -> Seq<char> {
    daemons_text(snapshot.daemons@) + counts_text(snapshot.counts) + run_table_text(snapshot.runs@)
        + selected_text(snapshot.selected, stale) + events_text(snapshot.recent_events@, tail)
}

/// Appends the text of a snapshot to `out`, with at most `tail` recent
/// events. `selected_pid_stale` says whether the selected run's recorded
/// process is no longer alive; it is read only when a pid is recorded.
/// Writing to a string does not fail.
pub fn render_snapshot(
    snapshot: &MonitorSnapshot,
    tail: usize,
    selected_pid_stale: bool,
    out: &mut String,
) -> (r: Result<(), std::fmt::Error>)
    ensures
        r is Ok,
        final(out)@ == old(out)@ + snapshot_text(*snapshot, tail as nat, selected_pid_stale),
{
    render_daemons(&snapshot.daemons, out);
    render_counts(&snapshot.counts, out);
    render_run_table(&snapshot.runs, out);
    render_selected(&snapshot.selected, selected_pid_stale, out);
    render_events(&snapshot.recent_events, tail, out);
    assert(out@ =~= old(out)@ + snapshot_text(*snapshot, tail as nat, selected_pid_stale));
    Ok(())
}

} // verus!
