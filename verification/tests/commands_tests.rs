use luther_workflow::commands::{
    choose_tail_run_id, daemon_poll_interval_secs, daemon_stale_lease_timeout_secs,
    format_child_pids, has_unresolved_config_token, instance_pid, interpolate_config_variables,
    is_config_token_byte, is_config_token_name, ps_row_is_stale, record_heartbeat_write,
    replace_all_occurrences, MAX_HEARTBEAT_WRITE_FAILURES,
};
use luther_workflow::monitor::heartbeat::{Heartbeat, MonitorState};
use luther_workflow::time::Timestamp;

/// The wall clock now, as the library's timestamp.
fn commands_now() -> Timestamp {
    let since = std::time::SystemTime::now().duration_since(std::time::UNIX_EPOCH).unwrap();
    Timestamp { secs: since.as_secs() as i64, nanos: since.subsec_nanos() }
}

#[test]
fn config_token_names() {
    assert!(is_config_token_byte(b'a'));
    assert!(is_config_token_byte(b'Z'));
    assert!(is_config_token_byte(b'7'));
    assert!(is_config_token_byte(b'_'));
    assert!(is_config_token_byte(b'.'));
    assert!(!is_config_token_byte(b'-'));
    assert!(!is_config_token_byte(b'{'));
    assert!(is_config_token_name("artifact_dir"));
    assert!(is_config_token_name("repo.name"));
    assert!(!is_config_token_name(""));
    assert!(!is_config_token_name("two words"));
}

#[test]
fn unresolved_config_tokens() {
    assert!(!has_unresolved_config_token("plain text"));
    assert!(has_unresolved_config_token("path/{artifact_dir}/x"));
    assert!(has_unresolved_config_token("open { never closed"));
    assert!(!has_unresolved_config_token("json {\"a\": 1} body"));
    assert!(!has_unresolved_config_token("{}"));
    // A non-token brace group is skipped whole, a later token still counts.
    assert!(has_unresolved_config_token("{a b} then {run_id}"));
    assert!(!has_unresolved_config_token("{a {b} c}"));
}

#[test]
fn heartbeat_write_failures_escalate() {
    let mut failures = 0u32;
    assert_eq!(record_heartbeat_write(&mut failures, "cfg", Some("disk full")), None);
    assert_eq!(failures, 1);
    assert_eq!(record_heartbeat_write(&mut failures, "cfg", Some("disk full")), None);
    let message = record_heartbeat_write(&mut failures, "cfg", Some("disk full"));
    assert_eq!(failures, MAX_HEARTBEAT_WRITE_FAILURES);
    assert_eq!(
        message.as_deref(),
        Some("heartbeat persistence failed 3 consecutive times for config 'cfg': disk full")
    );
    assert_eq!(record_heartbeat_write(&mut failures, "cfg", None), None);
    assert_eq!(failures, 0);
    let mut saturated = u32::MAX;
    assert!(record_heartbeat_write(&mut saturated, "cfg", Some("e")).is_some());
    assert_eq!(saturated, u32::MAX);
}

#[test]
fn instance_ids_to_pids() {
    assert_eq!(instance_pid("monitor-1234"), Some(1234));
    assert_eq!(instance_pid("monitor-+5"), Some(5));
    assert_eq!(instance_pid("monitor-"), None);
    assert_eq!(instance_pid("worker-12"), None);
    assert_eq!(instance_pid("monitor-99999999999"), None);
}

#[test]
fn child_pid_cells() {
    assert_eq!(format_child_pids(&[], &[]), "-");
    assert_eq!(format_child_pids(&[10], &[]), "10");
    assert_eq!(format_child_pids(&[10, 20, 30], &[20]), "10, 20 (stale), 30");
}

#[test]
fn ps_staleness() {
    assert!(ps_row_is_stale(false, 100, 100));
    assert!(!ps_row_is_stale(true, 160, 100));
    assert!(ps_row_is_stale(true, 161, 100));
    assert!(ps_row_is_stale(true, i64::MAX, i64::MIN));
}

#[test]
fn replace_matches_std() {
    for (s, pat, rep) in [
        ("aaaa", "aa", "b"),
        ("{x}/{x}", "{x}", "val"),
        ("no match", "{y}", "z"),
        ("héllo {n}", "{n}", "wörld"),
        ("abab", "ba", ""),
    ] {
        assert_eq!(replace_all_occurrences(s, pat, rep), s.replace(pat, rep));
    }
}

fn vars(pairs: &[(&str, &str)]) -> Vec<(String, String)> {
    pairs.iter().map(|(k, v)| (k.to_string(), v.to_string())).collect()
}

#[test]
fn config_variable_interpolation() {
    assert_eq!(
        interpolate_config_variables("{root}/artifacts", &vars(&[("root", "/data")])),
        Ok("/data/artifacts".to_string())
    );
    // Nested variables resolve over several passes.
    assert_eq!(
        interpolate_config_variables("{a}", &vars(&[("a", "{b}/x"), ("b", "/base")])),
        Ok("/base/x".to_string())
    );
    // A value that settles is kept, even with a placeholder nobody defines.
    assert_eq!(
        interpolate_config_variables("{missing}/x", &vars(&[("a", "1")])),
        Ok("{missing}/x".to_string())
    );
    // A value that keeps changing and still holds a placeholder is refused.
    assert_eq!(
        interpolate_config_variables("{a}", &vars(&[("a", "{a}{a}")])),
        Err("unresolved variable interpolation in artifact path: {a}{a}".to_string())
    );
    assert_eq!(interpolate_config_variables("plain", &[]), Ok("plain".to_string()));
}

#[test]
fn daemon_poll_and_stale_timeouts() {
    assert_eq!(daemon_poll_interval_secs(None), 300);
    assert_eq!(daemon_poll_interval_secs(Some(30)), 30);
    assert_eq!(daemon_stale_lease_timeout_secs(None), 1200);
    assert_eq!(daemon_stale_lease_timeout_secs(Some(30)), 120);
    assert_eq!(daemon_stale_lease_timeout_secs(Some(u64::MAX / 2)), u64::MAX);
}

fn hb(run: Option<&str>, state: MonitorState) -> Heartbeat {
    let h = Heartbeat::new("monitor-1", commands_now()).with_state(state);
    match run {
        Some(r) => h.with_run_id(r),
        None => h,
    }
}

#[test]
fn tail_run_selection() {
    assert_eq!(choose_tail_run_id(Some("r1".to_string()), false, &[]), Ok("r1".to_string()));
    assert_eq!(
        choose_tail_run_id(None, false, &[]),
        Err("provide a RUN_ID or use --current".to_string())
    );
    assert_eq!(
        choose_tail_run_id(None, true, &[hb(Some("r1"), MonitorState::Stopped)]),
        Err("no active run found for --current".to_string())
    );
    assert_eq!(
        choose_tail_run_id(
            None,
            true,
            &[hb(Some("r1"), MonitorState::Stopped), hb(Some("r2"), MonitorState::Degraded), hb(None, MonitorState::Running)]
        ),
        Ok("r2".to_string())
    );
    assert_eq!(
        choose_tail_run_id(None, true, &[hb(Some("r1"), MonitorState::Running), hb(Some("r2"), MonitorState::Starting)]),
        Err("multiple active runs found; specify an explicit RUN_ID".to_string())
    );
}
