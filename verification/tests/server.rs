use llm_doze::clock::Moment;
use llm_doze::config::ServerConfig;
use llm_doze::server::{ManagedServer, ServerState};

fn test_config() -> ServerConfig {
    ServerConfig {
        name: "test".to_string(),
        listen: 8000,
        backend: "localhost:8001".to_string(),
        start: "echo start".to_string(),
        stop: "echo stop".to_string(),
        health: "/health".to_string(),
        idle_timeout: 60,
        startup_timeout: 30,
        startup_poll_interval: 1,
        auth: None,
    }
}

fn origin() -> Moment {
    Moment::new(0, 0)
}

#[test]
fn test_initial_state_is_stopped() {
    let server = ManagedServer::new(test_config(), None, origin());
    assert_eq!(server.get_state(), ServerState::Stopped);
}

#[test]
fn test_state_transitions() {
    let mut server = ManagedServer::new(test_config(), None, origin());
    server.set_state(ServerState::Starting);
    assert_eq!(server.get_state(), ServerState::Starting);
    server.set_state(ServerState::Running);
    assert_eq!(server.get_state(), ServerState::Running);
    server.set_state(ServerState::Stopping);
    assert_eq!(server.get_state(), ServerState::Stopping);
    server.set_state(ServerState::Stopped);
    assert_eq!(server.get_state(), ServerState::Stopped);
}

#[test]
fn test_touch_updates_last_request() {
    let mut server = ManagedServer::new(test_config(), None, origin());
    let now = Moment::new(0, 50 * 1_000_000);
    let before = server.idle_seconds(now);
    server.touch(now);
    let after = server.idle_seconds(now);
    assert!(after <= before);
}

#[test]
fn test_auth_token_stored() {
    let server = ManagedServer::new(test_config(), Some("secret".to_string()), origin());
    assert_eq!(server.auth_token.as_deref(), Some("secret"));
}

#[test]
fn states_have_names() {
    assert_eq!(ServerState::Stopped.to_string(), "stopped");
    assert_eq!(ServerState::Starting.to_string(), "starting");
    assert_eq!(ServerState::Running.to_string(), "running");
    assert_eq!(ServerState::Stopping.to_string(), "stopping");
}

#[test]
fn idle_time_counts_whole_seconds() {
    let mut server = ManagedServer::new(test_config(), None, Moment::new(10, 900_000_000));
    assert_eq!(server.idle_seconds(Moment::new(11, 899_999_999)), 0);
    assert_eq!(server.idle_seconds(Moment::new(11, 900_000_000)), 1);
    assert_eq!(server.idle_seconds(Moment::new(70, 950_000_000)), 60);
    assert_eq!(server.idle_seconds(Moment::new(10, 0)), 0);
    server.touch(Moment::new(70, 0));
    assert_eq!(server.idle_seconds(Moment::new(70, 950_000_000)), 0);
    let server = ManagedServer::new(test_config(), None, origin());
    assert_eq!(server.idle_seconds(Moment::new(u64::MAX, 999_999_999)), u64::MAX);
}

#[test]
fn deadlines_are_reached_in_time() {
    let start = Moment::new(3, 500_000_000);
    assert!(!Moment::new(5, 499_999_999).has_reached(&start, 2));
    assert!(Moment::new(5, 500_000_000).has_reached(&start, 2));
    assert!(start.has_reached(&start, 0));
    assert!(!Moment::new(u64::MAX, 0).has_reached(&start, u64::MAX));
}
