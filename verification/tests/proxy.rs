use hyper::header::{HeaderMap, HeaderName, HeaderValue};
use hyper::Method;
use llm_doze::clock::Moment;
use llm_doze::config::ServerConfig;
use llm_doze::proxy::{
    backend_failure, copy_headers, ensure_running, forward_request, forward_uri, handle_request,
    rebuild_request, EnsureAction, ProxyRequest, RequestAction, RequestEvent,
};
use llm_doze::reply::error_response;
use llm_doze::server::{ManagedServer, ServerState};

fn config() -> ServerConfig {
    ServerConfig {
        name: "test".to_string(),
        listen: 8000,
        backend: "localhost:8001".to_string(),
        start: "up".to_string(),
        stop: "down".to_string(),
        health: "/health".to_string(),
        idle_timeout: 60,
        startup_timeout: 30,
        startup_poll_interval: 1,
        auth: None,
    }
}

fn service(token: Option<&str>, state: ServerState) -> ManagedServer {
    let mut server = ManagedServer::new(
        config(),
        token.map(|token| token.to_string()),
        Moment::new(0, 0),
    );
    server.set_state(state);
    server
}

fn request(uri: &str, fields: &[(&'static str, &'static str)]) -> ProxyRequest<u8> {
    let mut headers = HeaderMap::new();
    for (name, value) in fields {
        headers.append(HeaderName::from_static(name), HeaderValue::from_static(value));
    }
    ProxyRequest { method: Method::POST, uri: uri.to_string(), headers, body: 9 }
}

fn now() -> Moment {
    Moment::new(50, 0)
}

#[test]
fn a_stopped_service_is_started_by_one_request_only() {
    let mut server = service(None, ServerState::Stopped);
    assert_eq!(ensure_running(&mut server), EnsureAction::Start);
    assert_eq!(server.state, ServerState::Starting);
    assert_eq!(ensure_running(&mut server), EnsureAction::AwaitStartup);
    assert_eq!(server.state, ServerState::Starting);
    server.set_state(ServerState::Stopping);
    assert_eq!(ensure_running(&mut server), EnsureAction::AwaitStop);
    assert_eq!(server.state, ServerState::Stopping);
    server.set_state(ServerState::Running);
    assert_eq!(ensure_running(&mut server), EnsureAction::Ready);
    assert_eq!(server.state, ServerState::Running);
}

#[test]
fn a_refused_request_changes_nothing() {
    let mut server = service(Some("t"), ServerState::Stopped);
    let req = request("/", &[("authorization", "Bearer u")]);
    let decision = handle_request(&mut server, &req, RequestEvent::Arrived, now());
    assert!(!decision.wake_startup_waiters);
    match decision.action {
        RequestAction::Reply { reply } => assert_eq!(reply.status, 401),
        other => panic!("{:?}", other),
    }
    assert_eq!(server.state, ServerState::Stopped);
    assert_eq!(server.idle_seconds(now()), 50);
}

#[test]
fn a_request_is_led_through_the_start_of_the_service() {
    let mut server = service(Some("t"), ServerState::Stopped);
    let req = request("/", &[("authorization", "Bearer t")]);
    let first = handle_request(&mut server, &req, RequestEvent::Arrived, now());
    assert!(matches!(first.action, RequestAction::StartBackend));
    let second = handle_request(&mut server, &req, RequestEvent::Arrived, now());
    assert!(matches!(second.action, RequestAction::AwaitStartup));
    assert_eq!(server.idle_seconds(now()), 50);

    let event = RequestEvent::StartEnded { result: Ok(()) };
    let first = handle_request(&mut server, &req, event, now());
    assert!(first.wake_startup_waiters);
    assert!(matches!(first.action, RequestAction::Forward));
    assert_eq!(server.state, ServerState::Running);
    assert_eq!(server.idle_seconds(now()), 0);

    let second = handle_request(&mut server, &req, RequestEvent::Woken, Moment::new(60, 0));
    assert!(!second.wake_startup_waiters);
    assert!(matches!(second.action, RequestAction::Forward));
    assert_eq!(server.idle_seconds(Moment::new(61, 0)), 1);
}

#[test]
fn a_failed_start_is_told_and_can_be_repeated() {
    let mut server = service(None, ServerState::Starting);
    let req = request("/", &[]);
    let event = RequestEvent::StartEnded { result: Err("no luck".to_string()) };
    let decision = handle_request(&mut server, &req, event, now());
    assert!(decision.wake_startup_waiters);
    match decision.action {
        RequestAction::Reply { reply } => {
            assert_eq!(reply.status, 503);
            assert_eq!(reply.body, "{\"error\": \"no luck\"}");
        }
        other => panic!("{:?}", other),
    }
    assert_eq!(server.state, ServerState::Stopped);
    let decision = handle_request(&mut server, &req, RequestEvent::Woken, now());
    assert!(matches!(decision.action, RequestAction::StartBackend));
}

#[test]
fn a_request_waits_for_the_stop_to_end() {
    let mut server = service(None, ServerState::Stopping);
    let req = request("/", &[]);
    let decision = handle_request(&mut server, &req, RequestEvent::Arrived, now());
    assert!(matches!(decision.action, RequestAction::AwaitStop));
}

#[test]
fn a_request_is_forwarded_without_its_host() {
    let req = request(
        "/v1/chat?stream=1",
        &[
            ("host", "proxy:8000"),
            ("accept", "a"),
            ("x-two", "1"),
            ("accept", "b"),
            ("authorization", "Bearer t"),
        ],
    );
    let forwarded = forward_request(&config(), req).unwrap();
    assert_eq!(forwarded.method, Method::POST);
    assert_eq!(forwarded.uri, "http://localhost:8001/v1/chat?stream=1");
    assert_eq!(forwarded.body, 9);
    assert!(forwarded.headers.get("host").is_none());
    let accept: Vec<&HeaderValue> = forwarded.headers.get_all("accept").iter().collect();
    assert_eq!(accept, vec!["a", "b"]);
    assert_eq!(forwarded.headers.get("x-two").unwrap(), "1");
    assert_eq!(forwarded.headers.get("authorization").unwrap(), "Bearer t");
    let names: Vec<&str> = forwarded.headers.keys().map(|name| name.as_str()).collect();
    assert_eq!(names, vec!["accept", "x-two", "authorization"]);
    assert_eq!(forwarded.headers.len(), 4);
}

#[test]
fn only_path_and_query_of_an_address_are_forwarded() {
    let uri = |target: &str| forward_request(&config(), request(target, &[])).unwrap().uri;
    assert_eq!(uri("http://other:1/a?b"), "http://localhost:8001/a?b");
    assert_eq!(uri("http://other:1"), "http://localhost:8001/");
    assert_eq!(uri("other:1"), "http://localhost:8001/");
    assert_eq!(forward_uri(&config(), None), "http://localhost:8001/");
    assert_eq!(forward_uri(&config(), Some("?q")), "http://localhost:8001?q");
}

#[test]
fn a_request_that_cannot_be_rebuilt_is_answered() {
    let mut bad = config();
    bad.backend = "not a host".to_string();
    let reply = forward_request(&bad, request("/", &[])).unwrap_err();
    assert_eq!(reply.status, 500);
    assert_eq!(reply.body, "{\"error\": \"Failed to build request\"}");
    let rebuilt = rebuild_request(request("/", &[]), "u".to_string(), false);
    assert_eq!(rebuilt.unwrap_err().status, 500);
    let rebuilt = rebuild_request(request("/", &[]), "u".to_string(), true);
    assert_eq!(rebuilt.unwrap().uri, "u");
}

#[test]
fn many_headers_are_copied() {
    let mut headers = HeaderMap::new();
    for i in 0..6553 {
        let name = HeaderName::from_bytes(format!("x-{}", i).as_bytes()).unwrap();
        headers.append(name, HeaderValue::from(i));
    }
    for i in 0..40000 {
        headers.append(HeaderName::from_static("x-0"), HeaderValue::from(i));
    }
    let copy = copy_headers(&headers).unwrap();
    assert_eq!(copy, headers);
}

#[test]
fn a_failing_backend_is_answered_for() {
    let reply = backend_failure("connection refused");
    assert_eq!(reply.status, 502);
    assert_eq!(reply.body, "{\"error\": \"Backend error: connection refused\"}");
    assert_eq!(reply.content_type, "application/json");
}

#[test]
fn messages_stand_in_replies_as_they_are() {
    let reply = error_response(503, "a \"b\" c");
    assert_eq!(reply.status(), 503);
    assert_eq!(reply.body, "{\"error\": \"a \"b\" c\"}");
}
