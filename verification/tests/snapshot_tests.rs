use luther_workflow::monitor::snapshot::{
    render_snapshot, resolve_snapshot_count, separator_line, truncate_field, DaemonSummary,
    MonitorFilter, MonitorSnapshot, RunCounts, CLEAR_SCREEN,
};
use luther_workflow::persistence::checkpoint::EventRecord;
use luther_workflow::persistence::run_metadata::{RunMetadata, RunStatus};
use luther_workflow::time::Timestamp;

/// The wall clock now, as the library's timestamp.
fn snapshot_now() -> Timestamp {
    let since = std::time::SystemTime::now().duration_since(std::time::UNIX_EPOCH).unwrap();
    Timestamp { secs: since.as_secs() as i64, nanos: since.subsec_nanos() }
}

fn run_with_status(run_id: &str, status: RunStatus) -> RunMetadata {
    let mut md = RunMetadata::new(run_id, "wf", "cfg", snapshot_now());
    md.status = status;
    md
}

#[test]
fn resolve_count_once_is_one() {
    assert_eq!(resolve_snapshot_count(true, None), Some(1));
    // once wins even if times provided.
    assert_eq!(resolve_snapshot_count(true, Some(5)), Some(1));
}

#[test]
fn resolve_count_times_passthrough() {
    assert_eq!(resolve_snapshot_count(false, Some(5)), Some(5));
}

#[test]
fn resolve_count_default_infinite() {
    assert_eq!(resolve_snapshot_count(false, None), None);
}

#[test]
fn run_counts_classifies_states() {
    let runs = vec![
        run_with_status("a", RunStatus::Running),
        run_with_status("b", RunStatus::Starting),
        run_with_status("c", RunStatus::Queued),
        run_with_status("d", RunStatus::Initialized),
        run_with_status("e", RunStatus::Completed),
        run_with_status("f", RunStatus::Merged),
        run_with_status("g", RunStatus::Failed),
        run_with_status("h", RunStatus::Abandoned),
        run_with_status("i", RunStatus::Cancelled),
        run_with_status("j", RunStatus::Blocked),
    ];
    let counts = RunCounts::from_runs(&runs);
    assert_eq!(counts.active, 2);
    assert_eq!(counts.queued, 2);
    assert_eq!(counts.completed, 2);
    assert_eq!(counts.failed, 3);
}

#[test]
fn run_counts_leave_waiting_and_paused_uncounted() {
    let runs = vec![
        run_with_status("a", RunStatus::Paused),
        run_with_status("b", RunStatus::WaitingExternal),
        run_with_status("c", RunStatus::ReadyToResume),
        run_with_status("d", RunStatus::Remediating),
        run_with_status("e", RunStatus::WaitingForChecks),
    ];
    let counts = RunCounts::from_runs(&runs);
    assert_eq!(counts, RunCounts { active: 2, queued: 0, completed: 0, failed: 0 });
    assert_eq!(RunCounts::from_runs(&[]), RunCounts::default());
}

#[test]
fn filter_by_config_is_conjunctive() {
    let mut a = run_with_status("run-a", RunStatus::Running);
    a.config_id = "alpha".to_string();
    a.issue_number = Some(10);
    let mut b = run_with_status("run-b", RunStatus::Running);
    b.config_id = "beta".to_string();
    b.issue_number = Some(20);
    let runs = vec![a, b];

    let filter = MonitorFilter {
        config: Some("alpha".to_string()),
        ..Default::default()
    };
    let out = filter.apply(&runs);
    assert_eq!(out.runs.len(), 1);
    assert_eq!(out.runs[0].run_id, "run-a");
    assert_eq!(out.selected.as_ref().unwrap().run_id, "run-a");
}

#[test]
fn filter_by_issue_uses_issue_number() {
    let mut a = run_with_status("run-a", RunStatus::Running);
    a.issue_number = Some(1801);
    let mut b = run_with_status("run-b", RunStatus::Running);
    b.issue_number = Some(99);
    let runs = vec![a, b];

    let filter = MonitorFilter {
        issue: Some(1801),
        ..Default::default()
    };
    let out = filter.apply(&runs);
    assert_eq!(out.runs.len(), 1);
    assert_eq!(out.runs[0].run_id, "run-a");
}

#[test]
fn filter_by_run_marks_selected() {
    let runs = vec![
        run_with_status("run-a", RunStatus::Running),
        run_with_status("run-b", RunStatus::Running),
    ];
    let filter = MonitorFilter {
        run: Some("run-b".to_string()),
        ..Default::default()
    };
    let out = filter.apply(&runs);
    assert_eq!(out.runs.len(), 1);
    assert_eq!(out.selected.as_ref().unwrap().run_id, "run-b");
}

#[test]
fn filter_combines_constraints() {
    let mut a = run_with_status("run-a", RunStatus::Running);
    a.config_id = "alpha".to_string();
    a.issue_number = Some(7);
    let mut b = run_with_status("run-b", RunStatus::Running);
    b.config_id = "alpha".to_string();
    b.issue_number = Some(8);
    let runs = vec![a, b];

    let filter = MonitorFilter {
        config: Some("alpha".to_string()),
        issue: Some(8),
        ..Default::default()
    };
    let out = filter.apply(&runs);
    assert_eq!(out.runs.len(), 1);
    assert_eq!(out.runs[0].run_id, "run-b");
}

#[test]
fn empty_filter_keeps_everything_and_selects_first() {
    let runs = vec![
        run_with_status("run-a", RunStatus::Queued),
        run_with_status("run-b", RunStatus::Running),
    ];
    let filter = MonitorFilter::default();
    assert!(filter.is_empty());
    assert!(filter.admits_config("anything"));
    let out = filter.apply(&runs);
    assert_eq!(out.runs.len(), 2);
    assert_eq!(out.runs[1].run_id, "run-b");
    assert_eq!(out.selected.unwrap().run_id, "run-a");
    let none = MonitorFilter { run: Some("zzz".to_string()), ..Default::default() }.apply(&runs);
    assert!(none.runs.is_empty());
    assert!(none.selected.is_none());
    let by_config = MonitorFilter { config: Some("cfg".to_string()), ..Default::default() };
    assert!(!by_config.is_empty());
    assert!(by_config.admits_config("cfg"));
    assert!(!by_config.admits_config("other"));
}

fn sample_event(step: &str) -> EventRecord {
    EventRecord {
        run_id: "run-a".to_string(),
        step_id: step.to_string(),
        outcome: "success".to_string(),
        event_type: "step_completed".to_string(),
        details: None,
        timestamp: Timestamp { secs: 1_700_000_000, nanos: 0 },
    }
}

fn sample_snapshot() -> MonitorSnapshot {
    let mut selected = run_with_status("run-a", RunStatus::Running);
    selected.current_step = Some("implement".to_string());
    let daemon = DaemonSummary {
        config_id: "llxprt-code".to_string(),
        status: "running".to_string(),
        pid: 1234,
        uptime_secs: 42,
        alive: true,
    };
    MonitorSnapshot {
        generated_at: "2026-06-15T00:00:00Z".to_string(),
        daemons: vec![daemon],
        counts: RunCounts {
            active: 1,
            ..Default::default()
        },
        runs: vec![selected.clone()],
        selected: Some(selected),
        recent_events: vec![sample_event("s1"), sample_event("s2"), sample_event("s3")],
    }
}

#[test]
fn render_includes_all_sections() {
    let snapshot = sample_snapshot();
    let mut out = String::new();
    render_snapshot(&snapshot, 10, false, &mut out).unwrap();
    assert!(out.contains("Daemons:"));
    assert!(out.contains("llxprt-code"));
    assert!(out.contains("active=1"));
    assert!(out.contains("run-a"));
    assert!(out.contains("Selected run: run-a"));
    assert!(out.contains("implement"));
    assert!(out.contains("Recent events:"));
    assert!(out.contains("s1"));
}

#[test]
fn render_tail_limits_event_lines() {
    let snapshot = sample_snapshot();
    let mut out = String::new();
    render_snapshot(&snapshot, 2, false, &mut out).unwrap();
    let event_lines = out.lines().filter(|l| l.contains(" -> success ")).count();
    assert_eq!(event_lines, 2);
    assert!(!out.contains("] s1 -> "));
    assert!(out.contains("] s3 -> "));
}

#[test]
fn render_tail_zero_hides_events() {
    let snapshot = sample_snapshot();
    let mut out = String::new();
    render_snapshot(&snapshot, 0, false, &mut out).unwrap();
    assert!(!out.contains("Recent events:"));
}

#[test]
fn render_no_runs_is_graceful() {
    let snapshot = MonitorSnapshot {
        generated_at: "2026-06-15T00:00:00Z".to_string(),
        daemons: Vec::new(),
        counts: RunCounts::default(),
        runs: Vec::new(),
        selected: None,
        recent_events: Vec::new(),
    };
    let mut out = String::new();
    render_snapshot(&snapshot, 10, false, &mut out).unwrap();
    assert!(out.contains("(no daemons running)"));
    assert!(out.contains("No runs found."));
    assert_eq!(
        out,
        "Daemons:\n  (no daemons running)\nRuns: active=0 queued=0 completed=0 failed=0\nNo runs found.\nRecent events:\n  (no events)\n"
    );
}

#[test]
fn render_exact_lines() {
    let mut snapshot = sample_snapshot();
    let mut md = snapshot.selected.take().unwrap();
    md.previous_step = Some("plan".to_string());
    md.previous_outcome = Some("success".to_string());
    md.next_step_candidates = vec!["review".to_string(), "merge".to_string()];
    md.process_pid = Some(77);
    md.issue_number = Some(12);
    md.created_at = Timestamp { secs: 0, nanos: 0 };
    md.updated_at = None;
    snapshot.selected = Some(md.clone());
    snapshot.runs = vec![md];
    snapshot.daemons[0].alive = false;
    let mut out = String::new();
    render_snapshot(&snapshot, 1, true, &mut out).unwrap();
    let lines: Vec<&str> = out.lines().collect();
    assert_eq!(lines[0], "Daemons:");
    assert_eq!(lines[1], "  llxprt-code status=running pid=1234 uptime=42s (stale)");
    assert_eq!(lines[2], "Runs: active=1 queued=0 completed=0 failed=0");
    assert_eq!(
        lines[3],
        "CONFIG               RUN ID                       ISSUE   PR      STATE       STEP             UPDATED                  "
    );
    assert_eq!(
        lines[4],
        "cfg                  run-a                        12      -       running     implement        1970-01-01T00:00:00+00:00"
    );
    assert_eq!(lines[5], "Selected run: run-a");
    assert_eq!(lines[6], "  Status: running");
    assert_eq!(lines[7], "  Current step: implement");
    assert_eq!(lines[8], "  Previous: plan -> success");
    assert_eq!(lines[9], "  Next: review, merge");
    assert_eq!(lines[10], "  PID: 77 (stale)");
    assert_eq!(lines[11], "Recent events:");
    assert_eq!(lines[12], "  [2023-11-14T22:13:20+00:00] s3 -> success (step_completed)");
    assert_eq!(lines.len(), 13);
}

#[test]
fn render_next_step_fallbacks() {
    let mut snapshot = sample_snapshot();
    snapshot.recent_events.clear();
    let mut out = String::new();
    render_snapshot(&snapshot, 0, false, &mut out).unwrap();
    assert!(out.contains("  Next: unknown until current step completes\n"));
    assert!(out.contains("  PID: unknown\n"));
    assert!(out.contains("  Previous: (none) -> (none)\n"));
    let mut done = sample_snapshot();
    done.selected.as_mut().unwrap().status = RunStatus::Completed;
    let mut out2 = String::new();
    render_snapshot(&done, 0, false, &mut out2).unwrap();
    assert!(out2.contains("  Next: none (run is terminal)\n"));
}

#[test]
fn separator_line_contains_timestamp() {
    let line = separator_line("2026-06-15T00:00:00Z");
    assert!(line.contains("2026-06-15T00:00:00Z"));
    assert!(line.contains("monitor snapshot"));
    assert_eq!(line, "===== monitor snapshot @ 2026-06-15T00:00:00Z =====");
}

#[test]
fn truncate_field_adds_ellipsis() {
    assert_eq!(truncate_field("short", 10), "short");
    assert_eq!(truncate_field("abcdefghij", 5), "abcd…");
}

#[test]
fn truncate_field_edges() {
    assert_eq!(truncate_field("abcde", 5), "abcde");
    assert_eq!(truncate_field("abc", 1), "a");
    assert_eq!(truncate_field("abc", 0), "");
    assert_eq!(truncate_field("héllo wörld", 4), "hél…");
    assert_eq!(CLEAR_SCREEN, "\u{1b}[2J\u{1b}[H");
}
