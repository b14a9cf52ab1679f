use llm_doze::clock::{Moment, NANOS_PER_SECOND};
use llm_doze::config::ServerConfig;
use llm_doze::lifecycle::{
    idle_monitor, probe, probe_url, start_backend, stop_backend, stop_managed_subprocess,
    wait_for_health, CommandExit, IdleAction, IdleEvent, StartAction, StartEvent, StopAction,
    StopEvent, STOP_GRACE_SECONDS,
};
use llm_doze::server::{ManagedServer, ServerState};

fn service(start: &str, stop: &str) -> ManagedServer {
    let config = ServerConfig {
        name: "test".to_string(),
        listen: 8000,
        backend: "localhost:8001".to_string(),
        start: start.to_string(),
        stop: stop.to_string(),
        health: "/health".to_string(),
        idle_timeout: 60,
        startup_timeout: 30,
        startup_poll_interval: 2,
        auth: None,
    };
    ManagedServer::new(config, None, Moment::new(0, 0))
}

fn managed(start: &str) -> ManagedServer {
    service(start, "managed-subprocess")
}

fn at(secs: u64) -> Moment {
    Moment::new(secs, 0)
}

fn message(action: StartAction) -> String {
    match action {
        StartAction::Finished { result: Err(message) } => message,
        other => panic!("{:?}", other),
    }
}

#[test]
fn a_managed_subprocess_is_spawned_from_its_words() {
    let mut server = managed("/bin/server -m 'my model'");
    match start_backend(&mut server, StartEvent::Requested) {
        StartAction::Spawn { program, args } => {
            assert_eq!(program, "/bin/server");
            assert_eq!(args, vec!["-m", "my model"]);
        }
        other => panic!("{:?}", other),
    }
    assert!(!server.has_child);
}

#[test]
fn an_empty_start_command_fails() {
    let mut server = managed("  ");
    let action = start_backend(&mut server, StartEvent::Requested);
    assert_eq!(message(action), "Empty start command");
}

#[test]
fn any_other_service_is_started_by_its_command() {
    let mut server = service("docker compose up -d", "docker compose down");
    match start_backend(&mut server, StartEvent::Requested) {
        StartAction::RunCommand { script } => assert_eq!(script, "docker compose up -d"),
        other => panic!("{:?}", other),
    }
}

#[test]
fn a_spawned_child_is_kept_and_its_health_checked() {
    let mut server = managed("x");
    let event = StartEvent::SpawnEnded { spawned: Ok(()), now: at(7) };
    match start_backend(&mut server, event) {
        StartAction::Probe { url, since, nanos } => {
            assert_eq!(url, "http://localhost:8001/health");
            assert_eq!(nanos, 30 * NANOS_PER_SECOND);
            assert!(at(9).has_reached(&since, 2));
            assert!(!at(8).has_reached(&since, 2));
        }
        other => panic!("{:?}", other),
    }
    assert!(server.has_child);
}

#[test]
fn launch_failures_say_what_is_wrong() {
    let mut server = managed("x -y");
    let event = StartEvent::SpawnEnded { spawned: Err("not found".to_string()), now: at(0) };
    let action = start_backend(&mut server, event);
    assert_eq!(message(action), "Failed to spawn 'x -y': not found");
    assert!(!server.has_child);

    let mut server = service("false", "true");
    let exit = CommandExit { success: false, status: "exit status: 1".to_string() };
    let event = StartEvent::CommandEnded { exit: Ok(exit), now: at(0) };
    assert_eq!(
        message(start_backend(&mut server, event)),
        "Start command exited with status exit status: 1 for 'test'"
    );
    let event = StartEvent::CommandEnded { exit: Err("no shell".to_string()), now: at(0) };
    assert_eq!(
        message(start_backend(&mut server, event)),
        "Failed to run start command: no shell"
    );
}

#[test]
fn a_successful_command_is_followed_by_a_health_check() {
    let mut server = service("true", "true");
    let exit = CommandExit { success: true, status: "exit status: 0".to_string() };
    let event = StartEvent::CommandEnded { exit: Ok(exit), now: at(0) };
    assert!(matches!(start_backend(&mut server, event), StartAction::Probe { .. }));
}

#[test]
fn a_health_check_at_no_uri_is_not_made() {
    let mut server = service("true", "true");
    server.config.backend = "not a host".to_string();
    match start_backend(&mut server, StartEvent::Slept { since: at(0), now: at(2) }) {
        StartAction::BadHealthUrl { url } => assert_eq!(url, "http://not a host/health"),
        other => panic!("{:?}", other),
    }
    assert!(matches!(
        probe_url("u".to_string(), true, at(0), 5),
        StartAction::Probe { nanos: 5, .. }
    ));
    assert!(matches!(
        probe_url("u".to_string(), false, at(0), 5),
        StartAction::BadHealthUrl { .. }
    ));
}

#[test]
fn health_is_any_success_status() {
    let config = service("", "").config;
    for (status, healthy) in [(199, false), (200, true), (299, true), (300, false), (503, false)] {
        let action = wait_for_health(&config, at(0), Some(status), at(0));
        assert_eq!(matches!(action, StartAction::Finished { result: Ok(()) }), healthy);
    }
}

#[test]
fn health_is_awaited_until_the_timeout() {
    let config = service("", "").config;
    let pause = |now: Moment| match wait_for_health(&config, at(5), None, now) {
        StartAction::Sleep { nanos, .. } => nanos,
        other => panic!("{:?}", other),
    };
    assert_eq!(pause(at(5)), 2 * NANOS_PER_SECOND);
    assert_eq!(pause(at(33)), 2 * NANOS_PER_SECOND);
    assert_eq!(pause(Moment::new(33, 1)), 2 * NANOS_PER_SECOND - 1);
    assert_eq!(pause(Moment::new(34, 999_999_999)), 1);
    assert_eq!(
        message(wait_for_health(&config, at(5), Some(500), at(35))),
        "Health check timed out after 30s for 'test'"
    );
    // A check that is passed is passed, whenever the answer is seen.
    assert!(matches!(
        wait_for_health(&config, at(5), Some(204), at(99)),
        StartAction::Finished { result: Ok(()) }
    ));
}

fn after(nanos: u128) -> Moment {
    Moment::new((nanos / NANOS_PER_SECOND) as u64, (nanos % NANOS_PER_SECOND) as u32)
}

/// A start from second 100 on, none of whose checks is passed: the nanoseconds from
/// the launch to its end, and the number of checks. The checks are refused at once,
/// or not answered at all.
fn failing_start(timeout: u64, interval: u64, answered: bool) -> (u128, u32) {
    let mut server = service("true", "true");
    server.config.startup_timeout = timeout;
    server.config.startup_poll_interval = interval;
    let launch = 100 * NANOS_PER_SECOND;
    let mut now = launch;
    let mut probes = 0;
    let exit = CommandExit { success: true, status: String::new() };
    let mut event = StartEvent::CommandEnded { exit: Ok(exit), now: after(now) };
    loop {
        event = match start_backend(&mut server, event) {
            StartAction::Probe { since, nanos, .. } => {
                probes += 1;
                if !answered {
                    now += nanos;
                }
                StartEvent::Probed { since, status: None, now: after(now) }
            }
            StartAction::Sleep { nanos, since } => {
                now += nanos;
                StartEvent::Slept { since, now: after(now) }
            }
            StartAction::Finished { result } => {
                assert!(result.is_err());
                return (now - launch, probes);
            }
            other => panic!("{:?}", other),
        };
    }
}

#[test]
fn all_checks_of_a_start_count_from_its_launch() {
    assert_eq!(failing_start(30, 2, true), (30 * NANOS_PER_SECOND, 16));
    assert_eq!(failing_start(0, 2, true), (0, 1));
}

#[test]
fn a_start_waits_no_longer_than_its_timeout() {
    // The pause is cut short where the interval is longer than the timeout.
    assert_eq!(failing_start(1, 10, true), (NANOS_PER_SECOND, 2));
    assert_eq!(failing_start(5, 2, true), (5 * NANOS_PER_SECOND, 4));
    // A check that is never answered is given up.
    assert_eq!(failing_start(30, 2, false), (30 * NANOS_PER_SECOND, 1));
}

#[test]
fn a_check_has_the_time_that_is_left() {
    let config = service("", "").config;
    let nanos = |now: Moment| match probe(&config, at(5), now) {
        StartAction::Probe { nanos, .. } => nanos,
        other => panic!("{:?}", other),
    };
    assert_eq!(nanos(at(5)), 30 * NANOS_PER_SECOND);
    assert_eq!(nanos(Moment::new(34, 999_999_998)), 2);
    assert_eq!(nanos(at(35)), 0);
    assert_eq!(nanos(at(99)), 0);
}

#[test]
fn the_longest_times_are_added_up_in_full() {
    let mut config = service("", "").config;
    config.startup_timeout = u64::MAX;
    config.startup_poll_interval = u64::MAX;
    let long = u64::MAX as u128 * NANOS_PER_SECOND;
    let since = at(u64::MAX);
    match probe(&config, since, at(0)) {
        StartAction::Probe { nanos, .. } => assert_eq!(nanos, 2 * long),
        other => panic!("{:?}", other),
    }
    match wait_for_health(&config, since, None, since) {
        StartAction::Sleep { nanos, .. } => assert_eq!(nanos, long),
        other => panic!("{:?}", other),
    }
}

fn stop(
    server: &mut ManagedServer,
    pid: Option<u32>,
    can_ask: bool,
    exits: bool,
) -> Vec<String> {
    let mut trace = Vec::new();
    let mut event = StopEvent::Requested { pid, can_ask };
    loop {
        let action = stop_backend(server, event);
        trace.push(format!("{:?}", action));
        event = match action {
            StopAction::Terminate { .. } => StopEvent::GraceEnded { exited: exits },
            StopAction::Kill => StopEvent::Killed,
            StopAction::Reap => StopEvent::Reaped,
            StopAction::RunCommand { .. } => {
                let exit = CommandExit { success: exits, status: String::new() };
                StopEvent::CommandEnded { exit: Ok(exit) }
            }
            StopAction::Finished { .. } => return trace,
        };
    }
}

#[test]
fn a_child_is_asked_before_it_is_killed() {
    let done = "Finished { result: Ok(()) }";
    let ask = "Terminate { pid: 42, grace_seconds: 10 }";
    assert_eq!(STOP_GRACE_SECONDS, 10);
    let mut server = managed("x");
    server.has_child = true;
    assert_eq!(stop(&mut server, Some(42), true, true), vec![ask, "Reap", done]);
    assert!(!server.has_child);
    server.has_child = true;
    assert_eq!(stop(&mut server, Some(42), true, false), vec![ask, "Kill", "Reap", done]);
    assert!(!server.has_child);
    server.has_child = true;
    assert_eq!(stop(&mut server, Some(42), false, false), vec!["Kill", "Reap", done]);
    assert!(!server.has_child);
    server.has_child = true;
    assert_eq!(stop(&mut server, None, true, false), vec!["Reap", done]);
    assert!(!server.has_child);
    assert_eq!(stop(&mut server, None, true, false), vec![done]);
}

#[test]
fn stopping_twice_is_the_same_as_stopping_once() {
    let done = "Finished { result: Ok(()) }";
    let mut server = managed("x");
    assert_eq!(stop(&mut server, None, true, true), vec![done]);
    server.has_child = true;
    stop(&mut server, Some(42), true, true);
    assert_eq!(stop(&mut server, Some(42), true, true), vec![done]);
    assert_eq!(stop(&mut server, Some(42), false, false), vec![done]);
    assert!(!server.has_child);
    assert_eq!(format!("{:?}", stop_managed_subprocess(false, Some(42), true)), done);
}

#[test]
fn a_stop_command_may_fail_but_not_be_missing() {
    let mut server = service("up", "down");
    let run = "RunCommand { script: \"down\" }";
    let done = "Finished { result: Ok(()) }";
    assert_eq!(stop(&mut server, None, true, true), vec![run, done]);
    assert_eq!(stop(&mut server, None, true, false), vec![run, done]);
    match stop_backend(&mut server, StopEvent::CommandEnded { exit: Err("gone".to_string()) }) {
        StopAction::Finished { result } => {
            assert_eq!(result, Err("Failed to run stop command: gone".to_string()));
        }
        other => panic!("{:?}", other),
    }
}

#[test]
fn only_idle_running_services_are_stopped() {
    let mut server = service("up", "down");
    let long = IdleEvent::Tick { now: at(1000) };
    assert_eq!(idle_monitor(&mut server, long), IdleAction::Wait);
    assert_eq!(server.state, ServerState::Stopped);
    for state in [ServerState::Starting, ServerState::Stopping] {
        server.set_state(state);
        assert_eq!(idle_monitor(&mut server, IdleEvent::Tick { now: at(1000) }), IdleAction::Wait);
        assert_eq!(server.state, state);
    }
    server.set_state(ServerState::Running);
    server.touch(at(940));
    let early = IdleEvent::Tick { now: Moment::new(999, 999_999_999) };
    assert_eq!(idle_monitor(&mut server, early), IdleAction::Wait);
    assert_eq!(server.state, ServerState::Running);
    assert_eq!(idle_monitor(&mut server, IdleEvent::Tick { now: at(1000) }), IdleAction::Stop);
    assert_eq!(server.state, ServerState::Stopping);
}

#[test]
fn a_service_counts_as_stopped_however_its_stop_went() {
    for result in [Ok(()), Err("no".to_string())] {
        let mut server = service("up", "down");
        server.set_state(ServerState::Stopping);
        let action = idle_monitor(&mut server, IdleEvent::StopEnded { result });
        assert_eq!(action, IdleAction::WakeStopWaiters);
        assert_eq!(server.state, ServerState::Stopped);
    }
}
