//! Scenario tests for the watch-and-serve supervisor's decision core.

use sunfish::watchserve::{
    child_authority, child_env, debounce_count, is_ignored, proxy_response, proxy_target,
    unavailable_response, watch_filter, Config, Cycle, HttpResponse, Supervisor,
};

#[test]
fn five_signals_in_one_window_one_rebuild() {
    // Five file-change signals 1 ms apart, all within one 10 ms debounce
    // window: exactly one rebuild trigger.
    let times: Vec<u64> = vec![100, 101, 102, 103, 104];
    assert_eq!(debounce_count(&times, 10), 1);
}

#[test]
fn two_separated_signals_two_rebuilds() {
    // Two signals separated by longer than the window: two rebuilds.
    let times: Vec<u64> = vec![100, 200];
    assert_eq!(debounce_count(&times, 10), 2);
}

#[test]
fn single_signal_one_rebuild() {
    let times: Vec<u64> = vec![7];
    assert_eq!(debounce_count(&times, 10), 1);
}

#[test]
fn no_signals_no_rebuild() {
    let times: Vec<u64> = vec![];
    assert_eq!(debounce_count(&times, 10), 0);
}

#[test]
fn burst_then_pause_then_burst() {
    // A burst at 0..=4, a pause, a burst at 100..=101, a lone signal at 500.
    let times: Vec<u64> = vec![0, 1, 2, 3, 4, 100, 101, 500];
    assert_eq!(debounce_count(&times, 10), 3);
}

#[test]
fn boundary_signal_exactly_at_window_edge_is_same_burst() {
    // A signal exactly `window` after the first still belongs to its burst.
    let times: Vec<u64> = vec![100, 110];
    assert_eq!(debounce_count(&times, 10), 1);
    let times: Vec<u64> = vec![100, 111];
    assert_eq!(debounce_count(&times, 10), 2);
}

#[test]
fn ground_state_request_proceeds_immediately() {
    // A request admitted before the very first build (cycle still Ground)
    // captures no gate and is proxied immediately; with no child listening it
    // gets the unavailable response.
    let s = Supervisor::new();
    assert!(matches!(s.cycle, Cycle::Ground));
    assert_eq!(s.on_request(), None);
    let response = proxy_response(None);
    assert_eq!(response.status, 503);
    assert_eq!(response.body, "service unavailable");
}

#[test]
fn first_trigger_kills_nothing_and_opens_a_gate() {
    let mut s = Supervisor::new();
    let plan = s.on_trigger();
    assert_eq!(plan.kill_first, None);
    assert!(matches!(s.cycle, Cycle::Building { .. }));
    // A request admitted while Building captures that cycle's gate.
    assert_eq!(s.on_request(), Some(plan.gate));
}

#[test]
fn crash_as_ready_still_transitions_to_running() {
    // A child that exits immediately stops the probe, and the cycle still
    // becomes Running; later requests then fail per-request with 503.
    let mut s = Supervisor::new();
    let plan = s.on_trigger();
    let child_exited = true;
    let connect_ok = false;
    assert!(s.probe_should_stop(child_exited, connect_ok));
    let gate = s.on_probe_complete();
    assert_eq!(gate, plan.gate);
    assert!(matches!(s.cycle, Cycle::Running { .. }));
    assert_eq!(s.on_request(), None);
    let response = proxy_response(None);
    assert_eq!(response.status, 503);
    assert_eq!(response.body, "service unavailable");
}

#[test]
fn successful_connect_stops_probe_without_waiting_for_exit() {
    let s = Supervisor::new();
    assert!(s.probe_should_stop(false, true));
    assert!(!s.probe_should_stop(false, false));
}

#[test]
fn second_change_kills_the_running_child_before_spawning() {
    let mut s = Supervisor::new();
    let first = s.on_trigger();
    s.on_probe_complete();
    let first_child = match s.cycle {
        Cycle::Running { child } => child,
        _ => panic!("expected Running"),
    };
    assert_eq!(first_child, first.child);
    let second = s.on_trigger();
    // The plan orders the kill of the first child before the second spawn.
    assert_eq!(second.kill_first, Some(first.child));
    assert_ne!(second.child, first.child);
    assert_ne!(second.gate, first.gate);
}

#[test]
fn supersede_while_building_leaves_the_child_alive() {
    // The documented supersede-while-building leak: a cycle replaced while
    // still Building does not have its child killed.
    let mut s = Supervisor::new();
    let first = s.on_trigger();
    let second = s.on_trigger();
    assert_eq!(second.kill_first, None);
    assert_ne!(second.gate, first.gate);
}

#[test]
fn request_waits_on_the_gate_captured_at_admission() {
    let mut s = Supervisor::new();
    let first = s.on_trigger();
    let captured = s.on_request().expect("building cycle must hand out its gate");
    assert_eq!(captured, first.gate);
    // A later cycle's gate is a different gate: the waiter is bound to the
    // one it captured.
    let second = s.on_trigger();
    assert_ne!(captured, second.gate);
    let fulfilled = s.on_probe_complete();
    assert_eq!(fulfilled, second.gate);
    assert_ne!(fulfilled, captured);
}

#[test]
fn upstream_response_is_relayed_unchanged() {
    let upstream = HttpResponse {
        status: 200,
        headers: vec![("content-type".to_string(), "text/html".to_string())],
        body: "<h1>ok</h1>".to_string(),
    };
    let relayed = proxy_response(Some(upstream));
    assert_eq!(relayed.status, 200);
    assert_eq!(relayed.headers.len(), 1);
    assert_eq!(relayed.headers[0].0, "content-type");
    assert_eq!(relayed.headers[0].1, "text/html");
    assert_eq!(relayed.body, "<h1>ok</h1>");
}

#[test]
fn unavailable_response_is_fixed() {
    let response = unavailable_response();
    assert_eq!(response.status, 503);
    assert_eq!(response.body, "service unavailable");
    assert!(response.headers.is_empty());
}

#[test]
fn proxy_target_rewrites_to_the_child_authority() {
    assert_eq!(child_authority("127.0.0.1", 8080), "127.0.0.1:8080");
    assert_eq!(
        proxy_target("127.0.0.1", 8080, "/page?q=1"),
        "http://127.0.0.1:8080/page?q=1"
    );
    assert_eq!(child_authority("localhost", 0), "localhost:0");
    assert_eq!(child_authority("h", 65535), "h:65535");
}

#[test]
fn child_environment_exposes_host_and_port() {
    let env = child_env("0.0.0.0", 8081);
    assert_eq!(env.len(), 2);
    assert_eq!(env[0], ("HOST".to_string(), "0.0.0.0".to_string()));
    assert_eq!(env[1], ("PORT".to_string(), "8081".to_string()));
}

#[test]
fn ignore_prefixes_exclude_paths() {
    let ignores = vec!["/work/target".to_string(), "/work/.git".to_string()];
    assert!(is_ignored("/work/target/debug/app", &ignores));
    assert!(is_ignored("/work/.git/HEAD", &ignores));
    assert!(!is_ignored("/work/src/main.rs", &ignores));
    assert!(!is_ignored("/work", &ignores));
}

#[test]
fn watch_filter_keeps_only_unignored_paths_in_order() {
    let paths = vec![
        "/w/src/a.rs".to_string(),
        "/w/target/x".to_string(),
        "/w/src/b.rs".to_string(),
    ];
    let ignores = vec!["/w/target".to_string()];
    let kept = watch_filter(&paths, &ignores);
    assert_eq!(kept, vec!["/w/src/a.rs".to_string(), "/w/src/b.rs".to_string()]);
}

#[test]
fn config_carries_the_supervisor_settings() {
    let config = Config {
        host: "127.0.0.1".to_string(),
        port: 8080,
        child_host: "127.0.0.1".to_string(),
        child_port: 8081,
        watch_paths: vec!["src".to_string()],
        ignore_paths: vec!["target".to_string()],
        command: "cargo run".to_string(),
    };
    assert_eq!(config.port, 8080);
    assert_eq!(config.child_port, 8081);
    assert_eq!(config.watch_paths.len(), 1);
    assert_eq!(config.ignore_paths.len(), 1);
    assert_eq!(config.command, "cargo run");
}
