use luther_workflow::monitor::heartbeat::{Heartbeat, MonitorState};
use luther_workflow::persistence::artifacts::ArtifactRecord;
use luther_workflow::persistence::checkpoint::{Checkpoint, EventRecord, StateSnapshot};
use luther_workflow::persistence::leases::{IssueLease, LeaseStatus};
use luther_workflow::persistence::run_metadata::{RunMetadata, RunStatus};
use luther_workflow::reports::{
    checkpoints_table, effective_log_path, filter_runs, is_process_stale, log_tail, missing_log_report,
    ps_rows, ps_table, requested_heartbeat_details, run_log_path, run_registry_error_text,
    run_registry_text, runs_show_events, runs_show_human, runs_show_info, runs_show_paths_and_procs,
    runs_table, stale_child_pids, status_report, heartbeat_status, queue_leases_with_status, queue_report,
    QueueWait,
};
use luther_workflow::time::Timestamp;

/// The wall clock now, as the library's timestamp.
fn reports_now() -> Timestamp {
    let since = std::time::SystemTime::now().duration_since(std::time::UNIX_EPOCH).unwrap();
    Timestamp { secs: since.as_secs() as i64, nanos: since.subsec_nanos() }
}

const EPOCH: Timestamp = Timestamp { secs: 0, nanos: 0 };
const EPOCH_TEXT: &str = "1970-01-01T00:00:00+00:00";

fn sample_run() -> RunMetadata {
    let mut md = RunMetadata::new("run-1", "wf", "cfg", reports_now());
    md.status = RunStatus::Running;
    md.created_at = EPOCH;
    md.current_step = Some("build".to_string());
    md.previous_step = Some("plan".to_string());
    md.previous_outcome = Some("success".to_string());
    md.next_step_candidates = vec!["test".to_string(), "deploy".to_string()];
    md.artifact_root = Some("/a".to_string());
    md.repository = Some("o/r".to_string());
    md.issue_number = Some(7);
    md.process_pid = Some(4242);
    md.child_pids = vec![10, 11, 12];
    md
}

fn heartbeat(instance: &str, run_id: &str, timestamp: i64) -> Heartbeat {
    let mut hb = Heartbeat::new(instance, reports_now()).with_run_id(run_id).with_state(MonitorState::Running);
    hb.timestamp = timestamp;
    hb.uptime_secs = 90;
    hb
}

#[test]
fn registry_lists_each_run() {
    let text = run_registry_text(&vec![sample_run()], None, &[]);
    let expected = [
        "",
        "Persistent Run Registry:",
        "  Run ID: run-1",
        "    Status: running",
        "    Current step: build",
        "    Previous: plan -> success",
        "    Next step: test, deploy",
        "    Log: (none)",
        "    Artifacts: /a",
        "    Workspace: (none)",
        "    Repo: o/r  Issue: 7  PR: (none)",
        "    Head SHA: (none)",
        "    Process PID: 4242 (stale)",
        "",
        "",
    ]
    .join("\n");
    assert_eq!(text, expected);
    let alive = run_registry_text(&vec![sample_run()], None, &[4242]);
    assert!(alive.contains("    Process PID: 4242 (alive)\n"));
}

#[test]
fn registry_without_runs_names_the_query() {
    assert_eq!(
        run_registry_text(&Vec::new(), Some("abc"), &[]),
        "\nPersistent Run Registry:\n  No run found with id 'abc'.\n"
    );
    assert_eq!(run_registry_text(&Vec::new(), None, &[]), "\nPersistent Run Registry:\n  No runs recorded.\n");
    assert_eq!(
        run_registry_error_text("boom"),
        "\nPersistent Run Registry:\n  Status: registry unavailable (boom)\n"
    );
}

#[test]
fn next_step_of_terminal_and_pending_runs() {
    let mut md = sample_run();
    md.next_step_candidates.clear();
    md.status = RunStatus::Completed;
    assert!(run_registry_text(&vec![md.clone()], None, &[]).contains("    Next step: none (run is terminal)\n"));
    md.status = RunStatus::Queued;
    md.process_pid = None;
    let text = run_registry_text(&vec![md], None, &[]);
    assert!(text.contains("    Next step: unknown until current step completes\n"));
    assert!(text.contains("    Process PID: unknown\n"));
}

#[test]
fn runs_table_matches_fixed_columns() {
    assert_eq!(runs_table(&Vec::new()), "No runs found.\n");
    let md = sample_run();
    let header = format!(
        "{:<20} {:<28} {:<7} {:<7} {:<11} {:<16} {:<25}\n",
        "CONFIG", "RUN ID", "ISSUE", "PR", "STATE", "STEP", "UPDATED"
    );
    let row = format!(
        "{:<20} {:<28} {:<7} {:<7} {:<11} {:<16} {:<25}\n",
        "cfg", "run-1", "7", "-", "running", "build", EPOCH_TEXT
    );
    assert_eq!(runs_table(&vec![md]), format!("{header}{row}"));
}

#[test]
fn runs_show_sections() {
    let md = sample_run();
    let info = runs_show_info(&md);
    assert!(info.starts_with("Run run-1\n================================\nRun Info:\n  Config: cfg\n"));
    assert!(info.contains("  Issue: 7  PR: (none)\n"));
    assert!(info.ends_with("\nCurrent State:\n  Current step: build\n  Previous: plan -> success\n  Next step: test, deploy\n"));
    let procs = runs_show_paths_and_procs(&md, "/logs/run-1.log", false, &[4242, 11]);
    assert_eq!(
        procs,
        "\nPaths:\n  Workspace: (none)\n  Log: /logs/run-1.log (missing)\n  Artifact root: /a\n\
         \nProcesses:\n  Workflow PID: 4242 (alive)\n  Child PIDs: 10, 11, 12 (stale: 10, 12)\n"
    );
    let mut lone = sample_run();
    lone.child_pids.clear();
    assert!(runs_show_paths_and_procs(&lone, "/l", true, &[]).ends_with("  Child PIDs: (none)\n"));
    assert!(runs_show_paths_and_procs(&md, "/l", true, &[10, 11, 12]).ends_with("(stale: none)\n"));
}

#[test]
fn runs_show_lists_latest_fifteen_events() {
    let events: Vec<EventRecord> = (0..20)
        .map(|i| EventRecord {
            run_id: "run-1".to_string(),
            step_id: format!("s{i}"),
            outcome: "ok".to_string(),
            event_type: "step_outcome".to_string(),
            details: None,
            timestamp: EPOCH,
        })
        .collect();
    let artifacts = vec![ArtifactRecord::new("run-1", "/a/out.txt", "output", "s1", reports_now()).with_size(12)];
    let text = runs_show_events(&events, &artifacts);
    assert!(text.starts_with("\nRecent Events:\n"));
    assert!(!text.contains("] s4 ->"));
    assert!(text.contains(&format!("  [{EPOCH_TEXT}] s5 -> ok (step_outcome)\n")));
    assert!(text.ends_with("\nArtifacts:\n  /a/out.txt (12 bytes)\n"));
    assert_eq!(text.matches("-> ok").count(), 15);
    let unknown_size = vec![ArtifactRecord::new("run-1", "/a/x", "log", "s1", reports_now())];
    assert_eq!(
        runs_show_events(&Vec::new(), &unknown_size),
        "\nRecent Events:\n  (none)\n\nArtifacts:\n  /a/x (? bytes)\n"
    );
    assert_eq!(runs_show_events(&Vec::new(), &Vec::new()), "\nRecent Events:\n  (none)\n\nArtifacts:\n  (none)\n");
}

#[test]
fn runs_show_human_is_all_sections_in_order() {
    let md = sample_run();
    let whole = runs_show_human(&md, &Vec::new(), &Vec::new(), "/l", true, &[]);
    let parts = runs_show_info(&md)
        + &runs_show_paths_and_procs(&md, "/l", true, &[])
        + &runs_show_events(&Vec::new(), &Vec::new());
    assert_eq!(whole, parts);
}

#[test]
fn log_paths_prefer_the_recorded_one() {
    let mut md = sample_run();
    assert_eq!(effective_log_path(&md, "run-1", "/data/logs"), "/data/logs/run-1.log");
    assert_eq!(run_log_path("/data/logs/", "run-1"), "/data/logs/run-1.log");
    md.log_path = Some("/custom/x.log".to_string());
    assert_eq!(effective_log_path(&md, "run-1", "/data/logs"), "/custom/x.log");
}

#[test]
fn checkpoint_table_rows() {
    assert_eq!(checkpoints_table("r", &Vec::new()), "No checkpoints recorded for run 'r'.\n");
    let snapshot = StateSnapshot { status: "completed".to_string(), loop_count: 2, retry_count: 1, ..Default::default() };
    let mut cp = Checkpoint::with_snapshot("r", "build", snapshot, reports_now());
    cp.timestamp = EPOCH;
    let expected = format!(
        "Checkpoints for run 'r':\n  {:<26} {:<16} {:<6} {:<6} TIMESTAMP\n  {:<26} {:<16} {:<6} {:<6} {}\n",
        "STEP", "STATUS", "LOOP", "RETRY", "build", "completed", 2, 1, EPOCH_TEXT
    );
    assert_eq!(checkpoints_table("r", &vec![cp]), expected);
}

#[test]
fn heartbeat_section_and_details() {
    assert_eq!(heartbeat_status(&Vec::new()), "No active runs found.\n  Status: No heartbeats detected\n");
    let mut busy = heartbeat("monitor-7", "run-1", 0);
    busy.active_workers = 3;
    let far = heartbeat("monitor-8", "run-2", i64::MAX);
    let entries = vec![("run-1".to_string(), busy), ("run-2".to_string(), far)];
    let text = heartbeat_status(&entries);
    assert_eq!(
        text,
        format!(
            "Active/Recent Runs:\n  Run ID: run-1\n    State: running\n    Instance: monitor-7\n    Uptime: 90 seconds\n    Last heartbeat: {EPOCH_TEXT}\n    Active workers: 3\n\n  Run ID: run-2\n    State: running\n    Instance: monitor-8\n    Uptime: 90 seconds\n    Last heartbeat: unknown\n\n"
        )
    );
    assert_eq!(
        requested_heartbeat_details(Some("run-1"), &entries),
        "Details for run 'run-1':\n  State: Running\n  Active workers: 3\n"
    );
    assert_eq!(requested_heartbeat_details(Some("zzz"), &entries), "No heartbeat found for run 'zzz'\n");
    assert_eq!(requested_heartbeat_details(None, &entries), "");
}

#[test]
fn status_report_joins_its_sections() {
    let entries = vec![("run-1".to_string(), heartbeat("monitor-7", "run-1", 0))];
    let registry: Result<Vec<RunMetadata>, String> = Err("gone".to_string());
    let text = status_report(EPOCH, &entries, Some("run-1"), &registry, &[]);
    let expected = format!(
        "Luther Workflow Monitor Status\n==============================\nTimestamp: {EPOCH_TEXT}\n\n{}{}{}",
        heartbeat_status(&entries),
        requested_heartbeat_details(Some("run-1"), &entries),
        run_registry_error_text("gone")
    );
    assert_eq!(text, expected);
    let ok: Result<Vec<RunMetadata>, String> = Ok(Vec::new());
    assert!(status_report(EPOCH, &Vec::new(), Some("x"), &ok, &[]).ends_with("  No run found with id 'x'.\n"));
}

#[test]
fn run_filters_by_config_and_state() {
    let mut other = sample_run();
    other.run_id = "run-2".to_string();
    other.config_id = "other".to_string();
    let mut done = sample_run();
    done.run_id = "run-3".to_string();
    done.status = RunStatus::Completed;
    let runs = vec![sample_run(), other, done];
    let ids = |v: Vec<RunMetadata>| v.into_iter().map(|m| m.run_id).collect::<Vec<_>>();
    assert_eq!(ids(filter_runs(runs.clone(), Some("cfg"), None).unwrap()), vec!["run-1", "run-3"]);
    assert_eq!(ids(filter_runs(runs.clone(), Some("cfg"), Some("completed")).unwrap()), vec!["run-3"]);
    assert_eq!(ids(filter_runs(runs.clone(), None, None).unwrap()), vec!["run-1", "run-2", "run-3"]);
    assert_eq!(
        filter_runs(runs, None, Some("bogus")).unwrap_err(),
        "invalid --state 'bogus': Unknown run status: bogus"
    );
}

#[test]
fn process_staleness_from_alive_pids() {
    let md = sample_run();
    assert!(is_process_stale(&md, &[]));
    assert!(!is_process_stale(&md, &[4242]));
    assert_eq!(stale_child_pids(&[10, 11, 12], &[11]), vec![10, 12]);
    let mut none = sample_run();
    none.process_pid = None;
    assert!(!is_process_stale(&none, &[]));
}

#[test]
fn ps_rows_describe_monitors() {
    let mut md = sample_run();
    md.child_pids = vec![500, 501];
    let hbs = vec![
        heartbeat("monitor-300", "run-1", 1_000),
        heartbeat("monitor-x", "run-9", 1_000),
        heartbeat("monitor-301", "run-1", 900),
    ];
    let rows = ps_rows(&hbs, &vec![md], &[300, 301, 500], 1_030, None);
    assert_eq!(rows.len(), 3);
    assert_eq!(rows[0].pid, Some(300));
    assert!(rows[0].is_alive && !rows[0].is_stale);
    assert_eq!(rows[0].config_id.as_deref(), Some("cfg"));
    assert_eq!(rows[0].child_pids, vec![500, 501]);
    assert_eq!(rows[0].stale_child_pids, vec![501]);
    assert_eq!(rows[0].state, "running");
    assert_eq!(rows[1].pid, None);
    assert!(!rows[1].is_alive && rows[1].is_stale);
    assert_eq!(rows[1].config_id, None);
    assert!(rows[1].child_pids.is_empty());
    assert!(rows[2].is_alive && rows[2].is_stale);
    let only_cfg = ps_rows(&hbs, &vec![sample_run()], &[], 1_000, Some("cfg"));
    assert_eq!(only_cfg.iter().map(|r| r.instance_id.as_str()).collect::<Vec<_>>(), vec!["monitor-300", "monitor-301"]);
    assert!(ps_rows(&hbs, &vec![sample_run()], &[], 1_000, Some("nope")).is_empty());
}

#[test]
fn ps_table_matches_fixed_columns() {
    let mut md = sample_run();
    md.child_pids = vec![500, 501];
    let rows = ps_rows(&vec![heartbeat("monitor-300", "run-1", 1_000)], &vec![md], &[300, 500], 1_000, None);
    let header = format!(
        "{:<18} {:<24} {:<10} {:>7} {:>9} {:>8} {:<5} {:<20}\n",
        "INSTANCE", "RUN ID", "STATE", "WORKERS", "UPTIME", "PID", "STALE", "CHILD PIDS"
    );
    let row = format!(
        "{:<18} {:<24} {:<10} {:>7} {:>8}s {:>8} {:<5} {:<20}\n",
        "monitor-300", "run-1", "running", 0, 90, "300", "no", "500, 501 (stale)"
    );
    assert_eq!(ps_table(&rows), format!("{header}{row}"));
    assert_eq!(ps_table(&Vec::new()), "No processes found.\n");
}

#[test]
fn log_tail_keeps_the_last_lines() {
    assert_eq!(log_tail(b"a\nb\n\nc", 2), vec!["".to_string(), "c".to_string()]);
    assert_eq!(log_tail(b"a\nb\n", 5), vec!["a".to_string(), "b".to_string()]);
    assert!(log_tail(b"a\nb\n", 0).is_empty());
    assert!(log_tail(b"", 3).is_empty());
    assert_eq!(log_tail(b"\n", 3), vec!["".to_string()]);
    assert_eq!(log_tail(b"ok\n\xff\xfe\n", 1), vec!["\u{FFFD}\u{FFFD}".to_string()]);
}

#[test]
fn missing_log_points_at_artifacts() {
    assert_eq!(missing_log_report("/l/r.log", &Vec::new()), "No log file at /l/r.log\n");
    let artifacts = vec![ArtifactRecord::new("r", "/a/one", "log", "s", reports_now()), ArtifactRecord::new("r", "/a/two", "log", "s", reports_now())];
    assert_eq!(
        missing_log_report("/l/r.log", &artifacts),
        "No log file at /l/r.log\nArtifacts that may contain logs:\n  /a/one\n  /a/two\n"
    );
}

fn lease(repo: &str, issue: u64, run: Option<&str>, status: LeaseStatus) -> IssueLease {
    let mut l = IssueLease::new_claim(repo, issue, "cfg", EPOCH);
    l.run_id = run.map(str::to_string);
    l.status = status;
    l
}

#[test]
fn queue_groups_leases_by_status() {
    assert_eq!(queue_report(&Vec::new(), &Vec::new()), "Queue is empty.\n");
    let leases = vec![
        lease("o/r", 3, Some("run-3"), LeaseStatus::WaitingExternal),
        lease("o/r", 1, None, LeaseStatus::Pending),
        lease("o/r", 2, Some("run-2"), LeaseStatus::Running),
        lease("o/r", 4, None, LeaseStatus::Pending),
    ];
    let waits = vec![QueueWait {
        run_id: "run-3".to_string(),
        wait_kind: "pr_checks".to_string(),
        next_poll_at: EPOCH_TEXT.to_string(),
        poll_count: 2,
        resume_step: "watch_pr_checks".to_string(),
    }];
    let expected = format!(
        "pending (2):\n  o/r#1 config=cfg run=- active_slot_used=no\n  o/r#4 config=cfg run=- active_slot_used=no\n\
         running (1):\n  o/r#2 config=cfg run=run-2 active_slot_used=yes\n\
         waiting_external (1):\n  o/r#3 config=cfg run=run-3 active_slot_used=no wait=kind=pr_checks next_poll_at={EPOCH_TEXT} poll_count=2 resume_step=watch_pr_checks\n"
    );
    assert_eq!(queue_report(&leases, &waits), expected);
}

#[test]
fn queue_status_filter() {
    let leases = vec![
        lease("o/r", 1, None, LeaseStatus::Pending),
        lease("o/r", 2, None, LeaseStatus::Failed),
        lease("o/r", 3, None, LeaseStatus::Pending),
    ];
    let issues = |v: Vec<IssueLease>| v.into_iter().map(|l| l.issue_number).collect::<Vec<_>>();
    assert_eq!(issues(queue_leases_with_status(leases.clone(), Some("pending")).unwrap()), vec![1, 3]);
    assert_eq!(issues(queue_leases_with_status(leases.clone(), None).unwrap()), vec![1, 2, 3]);
    assert_eq!(
        queue_leases_with_status(leases, Some("nope")).unwrap_err(),
        "invalid --status: Unknown lease status: nope"
    );
}

#[test]
fn log_lines_rejoin_to_the_log() {
    let content = b"first\nsecond\n\nlast";
    let lines = log_tail(content, usize::MAX);
    assert_eq!(lines.join("\n").as_bytes(), content);
    assert!(lines.iter().all(|l| !l.contains('\n')));
}
