use luther_workflow::monitor::RestartCounter;
use luther_workflow::monitor::heartbeat::{get_heartbeat_path, Heartbeat, HeartbeatError, MonitorState};
use luther_workflow::monitor::ipc::{
    get_default_ipc_path, ipc_endpoint_path, respond, IpcRequest, IpcResponse, SharedState,
};
use luther_workflow::monitor::process::{
    backoff_delay_secs, calculate_backoff, existing_lock_verdict, lock_path_for_scope,
    on_worker_exit, parse_u32, should_restart, trim, MonitorConfig, MonitorError, ProcessState,
    WorkerExitAction,
};
use luther_workflow::monitor::DegradedAction;
use std::time::Duration;
use luther_workflow::time::Timestamp;

/// The wall clock now, as the library's timestamp.
fn monitor_now() -> Timestamp {
    let since = std::time::SystemTime::now().duration_since(std::time::UNIX_EPOCH).unwrap();
    Timestamp { secs: since.as_secs() as i64, nanos: since.subsec_nanos() }
}

#[test]
fn test_heartbeat_creation() {
    let hb = Heartbeat::new("test-instance", monitor_now())
        .with_run_id("run-001")
        .with_state(MonitorState::Running)
        .with_uptime(123)
        .with_active_workers(5);

    assert_eq!(hb.instance_id, "test-instance");
    assert_eq!(hb.run_id, Some("run-001".to_string()));
    assert_eq!(hb.state, MonitorState::Running);
    assert_eq!(hb.uptime_secs, 123);
    assert_eq!(hb.active_workers, 5);
    assert!(hb.timestamp > 0);
}

#[test]
fn test_get_heartbeat_path() {
    let path = get_heartbeat_path("/var/lib/luther", "test-run-123");
    assert!(path.contains("heartbeats"));
    assert!(path.contains("test-run-123.json"));
    assert_eq!(path, "/var/lib/luther/heartbeats/test-run-123.json");
}

#[test]
fn heartbeat_new_starts_clean() {
    let hb = Heartbeat::new("monitor-7", monitor_now());
    assert_eq!(hb.state, MonitorState::Starting);
    assert_eq!(hb.uptime_secs, 0);
    assert_eq!(hb.active_workers, 0);
    assert_eq!(hb.run_id, None);
    assert_eq!(hb.version, 1);
    assert!(hb.metadata.is_empty());
}

#[test]
fn monitor_state_tokens() {
    assert_eq!(MonitorState::Starting.as_str(), "starting");
    assert_eq!(MonitorState::Running.as_str(), "running");
    assert_eq!(MonitorState::Degraded.as_str(), "degraded");
    assert_eq!(MonitorState::Stopping.as_str(), "stopping");
    assert_eq!(MonitorState::Stopped.as_str(), "stopped");
    assert_eq!(MonitorState::Error.to_string(), "error");
}

#[test]
fn heartbeat_error_messages() {
    assert_eq!(
        HeartbeatError::Serialization("bad".to_string()).to_string(),
        "Serialization error: bad"
    );
    assert_eq!(
        HeartbeatError::NotFound("r1".to_string()).to_string(),
        "Heartbeat not found for run: r1"
    );
    let io = HeartbeatError::Io(std::io::Error::new(std::io::ErrorKind::Other, "boom"));
    assert_eq!(io.to_string(), "IO error: boom");
}

#[test]
fn test_shared_state() {
    let state = SharedState::new("test-instance").with_state(MonitorState::Running);

    assert_eq!(state.instance_id, "test-instance");
    assert_eq!(state.state, MonitorState::Running);
}

#[test]
fn respond_answers_each_request() {
    let mut shared = SharedState::new("monitor-1").with_state(MonitorState::Running);
    shared.uptime_secs = 9;
    shared.active_runs = vec!["worker-0".to_string(), "worker-1".to_string()];

    match respond(&shared, &IpcRequest::Status { include_heartbeats: false }, 0) {
        IpcResponse::Status { instance_id, state, uptime_secs, active_runs } => {
            assert_eq!(instance_id, "monitor-1");
            assert_eq!(state, "running");
            assert_eq!(uptime_secs, 9);
            assert_eq!(active_runs, vec!["worker-0".to_string(), "worker-1".to_string()]);
        }
        other => panic!("unexpected {other:?}"),
    }
    match respond(&shared, &IpcRequest::Heartbeat { run_id: "r9".to_string() }, 0) {
        IpcResponse::Error { code, message } => {
            assert_eq!(code, "NOT_FOUND");
            assert_eq!(message, "Heartbeat not found for run: r9");
        }
        other => panic!("unexpected {other:?}"),
    }
    let mut recorded = Heartbeat::new("monitor-1", monitor_now()).with_run_id("r9").with_active_workers(3);
    recorded.metadata.insert("host".to_string(), "a".to_string());
    shared.record_heartbeat("r9".to_string(), recorded.clone());
    match respond(&shared, &IpcRequest::Heartbeat { run_id: "r9".to_string() }, 0) {
        IpcResponse::Heartbeat(hb) => {
            assert_eq!(hb.run_id.as_deref(), Some("r9"));
            assert_eq!(hb.instance_id, recorded.instance_id);
            assert_eq!(hb.timestamp, recorded.timestamp);
            assert_eq!(hb.active_workers, 3);
            assert_eq!(hb.metadata, recorded.metadata);
        }
        other => panic!("unexpected {other:?}"),
    }
    match respond(&shared, &IpcRequest::Heartbeat { run_id: "other".to_string() }, 0) {
        IpcResponse::Error { code, .. } => assert_eq!(code, "NOT_FOUND"),
        other => panic!("unexpected {other:?}"),
    }
    assert!(matches!(respond(&shared, &IpcRequest::Shutdown, 0), IpcResponse::Acknowledged));
    match respond(&shared, &IpcRequest::Ping, 12345) {
        IpcResponse::Pong { timestamp } => assert_eq!(timestamp, 12345),
        other => panic!("unexpected {other:?}"),
    }
}

#[test]
fn test_calculate_backoff_fixed() {
    let delay = calculate_backoff("fixed", 5, 60, 5);
    assert_eq!(delay, Duration::from_secs(5));
}

#[test]
fn test_calculate_backoff_exponential() {
    assert_eq!(calculate_backoff("exponential", 1, 60, 1), Duration::from_secs(1));
    assert_eq!(calculate_backoff("exponential", 1, 60, 2), Duration::from_secs(2));
    assert_eq!(calculate_backoff("exponential", 1, 60, 3), Duration::from_secs(4));
    assert_eq!(calculate_backoff("exponential", 1, 60, 6), Duration::from_secs(32));
    assert_eq!(calculate_backoff("exponential", 1, 60, 10), Duration::from_secs(60)); // Capped at max
}

#[test]
fn backoff_is_capped_and_monotone_in_attempts() {
    let mut previous = 0;
    for attempt in 0..20u32 {
        let secs = backoff_delay_secs("exponential", 3, 100, attempt);
        assert!(secs <= 100);
        assert!(secs >= previous);
        previous = secs;
    }
    assert_eq!(backoff_delay_secs("exponential", 3, 100, 0), 3);
    assert_eq!(backoff_delay_secs("exponential", 3, 100, 3), 12);
    assert_eq!(backoff_delay_secs("linear", 3, 100, 9), 3);
}

#[test]
fn test_process_state_restart_tracking() {
    let config = MonitorConfig {
        max_restarts: 3,
        backoff_strategy: "exponential".to_string(),
        initial_backoff_secs: 1,
        max_backoff_secs: 10,
        ..Default::default()
    };

    let mut state = ProcessState::new(config);
    assert_eq!(state.restart_count(), 0);
    assert!(!state.is_restart_limit_reached());

    state.record_restart();
    assert_eq!(state.restart_count(), 1);

    state.record_restart();
    state.record_restart();
    assert_eq!(state.restart_count(), 3);
    assert!(state.is_restart_limit_reached());

    assert_eq!(state.current_backoff(), Duration::from_secs(4)); // 1 * 2^2
}

#[test]
fn process_state_records_restart_time() {
    let mut state = ProcessState::new(MonitorConfig::default());
    assert!(state.time_since_last_restart().is_none());
    state.record_restart();
    assert!(state.time_since_last_restart().is_some());
    // The limit stays reached once reached.
    let mut limited = ProcessState::new(MonitorConfig { max_restarts: 1, ..Default::default() });
    limited.record_restart();
    assert!(limited.is_restart_limit_reached());
    limited.record_restart();
    assert!(limited.is_restart_limit_reached());
}

#[test]
fn monitor_config_defaults() {
    let c = MonitorConfig::default();
    assert_eq!(c.restart_policy, "on_failure");
    assert_eq!(c.backoff_strategy, "exponential");
    assert_eq!(c.initial_backoff_secs, 1);
    assert_eq!(c.max_backoff_secs, 60);
    assert_eq!(c.max_restarts, 5);
    assert!(c.singleton_mode);
    assert_eq!(c.lock_file_path, None);
    assert_eq!(c.heartbeat_interval_secs, 1);
    assert_eq!(c.max_missed_heartbeats, 3);
}

#[test]
fn restart_policy_decisions() {
    assert!(should_restart("always", Some(0)));
    assert!(should_restart("on_failure", Some(1)));
    assert!(should_restart("on_failure", None));
    assert!(!should_restart("on_failure", Some(0)));
    assert!(!should_restart("no_restart", Some(1)));
}

#[test]
fn lock_paths_and_verdicts() {
    assert_eq!(lock_path_for_scope("test-scope-1"), "/tmp/test-scope-1.lock");
    assert_eq!(lock_path_for_scope("a/b"), "/tmp/a_b.lock");
    assert_eq!(lock_path_for_scope("/run/x.lock"), "/run/x.lock");
    assert_eq!(existing_lock_verdict(" 42\n", true, 7), Err(MonitorError::LockHeld { pid: 42 }));
    assert_eq!(existing_lock_verdict("42", false, 7), Ok(()));
    assert_eq!(existing_lock_verdict("7", false, 7), Err(MonitorError::LockHeld { pid: 7 }));
    assert_eq!(
        existing_lock_verdict("pid", true, 7),
        Err(MonitorError::LockError { message: "Lock file contains invalid PID".to_string() })
    );
    assert_eq!(trim("  x y \t"), "x y");
    assert_eq!(parse_u32("+17"), Some(17));
    assert_eq!(parse_u32("4294967296"), None);
    assert_eq!(parse_u32(""), None);
}

#[test]
fn monitor_error_messages() {
    assert_eq!(MonitorError::LockHeld { pid: 12 }.to_string(), "Lock held by another process (PID: 12)");
    assert_eq!(MonitorError::AlreadyRunning.to_string(), "Monitor already running");
    assert_eq!(
        MonitorError::General { message: "x".to_string() }.to_string(),
        "Monitor error: x"
    );
}

#[test]
fn degraded_actions() {
    assert!(DegradedAction::AlertAndWait.requires_alert());
    assert!(!DegradedAction::AlertAndWait.allows_new_work());
    assert!(DegradedAction::AlertAndContinue.requires_alert());
    assert!(DegradedAction::AlertAndContinue.allows_new_work());
    assert!(!DegradedAction::Shutdown.requires_alert());
    assert!(!DegradedAction::Shutdown.allows_new_work());
}

#[test]
fn worker_exit_decisions() {
    let config = MonitorConfig { max_restarts: 2, max_backoff_secs: 100, ..Default::default() };
    let mut state = ProcessState::new(config);
    // on_failure: a clean exit retires without degrading.
    assert_eq!(on_worker_exit(&mut state, Some(0)), WorkerExitAction::Retire { degrade: false });
    assert_eq!(state.restart_count(), 0);
    assert_eq!(
        on_worker_exit(&mut state, Some(1)),
        WorkerExitAction::Respawn { backoff: Duration::from_secs(1) }
    );
    assert_eq!(
        on_worker_exit(&mut state, None),
        WorkerExitAction::Respawn { backoff: Duration::from_secs(2) }
    );
    assert_eq!(state.restart_count(), 2);
    // The limit is reached: the worker retires and the monitor degrades.
    assert_eq!(on_worker_exit(&mut state, Some(1)), WorkerExitAction::Retire { degrade: true });
    assert_eq!(on_worker_exit(&mut state, Some(0)), WorkerExitAction::Retire { degrade: true });
    let mut never = ProcessState::new(MonitorConfig { restart_policy: "no_restart".to_string(), ..Default::default() });
    assert_eq!(on_worker_exit(&mut never, Some(9)), WorkerExitAction::Retire { degrade: false });
}

#[test]
fn ipc_socket_paths() {
    assert_eq!(get_default_ipc_path("/data"), "/data/ipc/luther-monitor.sock");
    let p = ipc_endpoint_path("/data", 4321);
    assert!(p.contains("ipc"));
    assert!(p.contains("luther-monitor"));
    assert!(p.ends_with(".sock"));
    assert_eq!(p, "/data/ipc/luther-monitor-4321.sock");
}

#[test]
fn active_runs_are_marked_once_and_cleared() {
    let mut state = SharedState::new("monitor-1");
    state.mark_run_active("w1");
    state.mark_run_active("w2");
    state.mark_run_active("w1");
    assert_eq!(state.active_runs, vec!["w1".to_string(), "w2".to_string()]);
    state.mark_run_inactive("w1");
    assert_eq!(state.active_runs, vec!["w2".to_string()]);
    state.mark_run_inactive("absent");
    assert_eq!(state.active_runs, vec!["w2".to_string()]);
    state.active_runs.push("w2".to_string());
    state.mark_run_inactive("w2");
    assert!(state.active_runs.is_empty());
}

#[test]
fn restart_counter_degrades_at_the_limit() {
    let mut counter = RestartCounter::new(2);
    assert!(!counter.should_enter_degraded());
    counter.record_restart();
    assert!(!counter.should_enter_degraded());
    counter.record_restart();
    assert!(counter.should_enter_degraded());
    counter.record_restart();
    assert!(counter.should_enter_degraded());
    assert_eq!(counter.get_degraded_action(), DegradedAction::AlertAndWait);
    assert!(RestartCounter::new(0).should_enter_degraded());
}
