use llm_doze::clock::Moment;
use llm_doze::config::{
    default_health, default_idle_timeout, default_startup_poll_interval, default_startup_timeout,
    default_true, AuthConfig, Config, ConfigError, ServerConfig,
};
use llm_doze::server::ServerState;
use serde_yaml::Value;

fn text(value: &Value, key: &str) -> String {
    value.get(key).unwrap().as_str().unwrap().to_string()
}

fn auth(value: &Value) -> Option<AuthConfig> {
    value.get("auth").map(|auth| {
        let token = auth.get("token").map(|token| token.as_str().unwrap().to_string());
        let enabled = match auth.get("enabled") {
            Some(enabled) => enabled.as_bool().unwrap(),
            None => default_true(),
        };
        AuthConfig::from_parts(token, enabled).unwrap()
    })
}

fn number(value: &Value, key: &str, default: u64) -> u64 {
    match value.get(key) {
        Some(number) => number.as_u64().unwrap(),
        None => default,
    }
}

fn server(value: &Value) -> ServerConfig {
    ServerConfig {
        name: text(value, "name"),
        listen: value.get("listen").unwrap().as_u64().unwrap() as u16,
        backend: text(value, "backend"),
        start: text(value, "start"),
        stop: text(value, "stop"),
        health: match value.get("health") {
            Some(_) => text(value, "health"),
            None => default_health(),
        },
        idle_timeout: number(value, "idle_timeout", default_idle_timeout()),
        startup_timeout: number(value, "startup_timeout", default_startup_timeout()),
        startup_poll_interval: number(
            value,
            "startup_poll_interval",
            default_startup_poll_interval(),
        ),
        auth: auth(value),
    }
}

fn parse(yaml: &str) -> Config {
    let value: Value = serde_yaml::from_str(yaml).unwrap();
    let servers = value.get("servers").unwrap().as_sequence().unwrap();
    Config { auth: auth(&value), servers: servers.iter().map(server).collect() }
}

#[test]
fn test_parse_full_config() {
    let yaml = r#"
auth:
  token: "test-token"

servers:
  - name: test-server
    listen: 8000
    backend: localhost:8900
    start: echo start
    stop: echo stop
    health: /health
    idle_timeout: 600
"#;
    let config: Config = parse(yaml);
    assert_eq!(config.servers.len(), 1);
    assert_eq!(config.servers[0].name, "test-server");
    assert_eq!(config.servers[0].listen, 8000);
    assert_eq!(config.auth.as_ref().unwrap().token, "test-token");
}

#[test]
fn test_parse_minimal_config() {
    let yaml = r#"
servers:
  - name: minimal
    listen: 9000
    backend: localhost:9001
    start: echo start
    stop: echo stop
"#;
    let config: Config = parse(yaml);
    let server = &config.servers[0];
    assert_eq!(server.health, "/health");
    assert_eq!(server.idle_timeout, 600);
    assert_eq!(server.startup_timeout, 300);
    assert_eq!(server.startup_poll_interval, 2);
    assert!(config.auth.is_none());
}

#[test]
fn test_managed_subprocess_detection() {
    let yaml = r#"
servers:
  - name: managed
    listen: 8000
    backend: localhost:8001
    start: /usr/bin/server
    stop: managed-subprocess
"#;
    let config: Config = parse(yaml);
    assert!(config.servers[0].is_managed_subprocess());
}

#[test]
fn test_per_server_auth_override() {
    let yaml = r#"
auth:
  token: "global-token"

servers:
  - name: with-override
    listen: 8000
    backend: localhost:8001
    start: echo start
    stop: echo stop
    auth:
      token: "server-token"
  - name: uses-global
    listen: 8001
    backend: localhost:8002
    start: echo start
    stop: echo stop
  - name: no-auth
    listen: 8002
    backend: localhost:8003
    start: echo start
    stop: echo stop
    auth:
      token: ""
      enabled: false
"#;
    let config: Config = parse(yaml);
    assert_eq!(
        config.effective_token(&config.servers[0]),
        Some("server-token")
    );
    assert_eq!(
        config.effective_token(&config.servers[1]),
        Some("global-token")
    );
    assert_eq!(config.effective_token(&config.servers[2]), None);
}

#[test]
fn test_validate_duplicate_ports() {
    let yaml = r#"
servers:
  - name: server1
    listen: 8000
    backend: localhost:8001
    start: echo start
    stop: echo stop
  - name: server2
    listen: 8000
    backend: localhost:8002
    start: echo start
    stop: echo stop
"#;
    let config: Config = parse(yaml);
    assert!(config.validate().is_err());
}

#[test]
fn test_validate_empty_servers() {
    let yaml = r#"
servers: []
"#;
    let config: Config = parse(yaml);
    assert!(config.validate().is_err());
}

#[test]
fn test_backend_url() {
    let yaml = r#"
servers:
  - name: test
    listen: 8000
    backend: localhost:8001
    start: echo start
    stop: echo stop
"#;
    let config: Config = parse(yaml);
    assert_eq!(
        config.servers[0].backend_url("/v1/chat"),
        "http://localhost:8001/v1/chat"
    );
}

#[test]
fn a_disabled_setting_needs_no_token() {
    let yaml = r#"
auth:
  token: "global-token"

servers:
  - name: public-model
    listen: 8000
    backend: localhost:8001
    start: echo start
    stop: echo stop
    auth:
      enabled: false
  - name: private-model
    listen: 8001
    backend: localhost:8002
    start: echo start
    stop: echo stop
    auth:
      token: "private-token"
"#;
    let config: Config = parse(yaml);
    assert_eq!(config.effective_token(&config.servers[0]), None);
    assert_eq!(config.effective_token(&config.servers[1]), Some("private-token"));
}

#[test]
fn an_enabled_setting_needs_a_token() {
    assert!(AuthConfig::from_parts(None, true).is_none());
    let auth = AuthConfig::from_parts(Some("t".to_string()), true).unwrap();
    assert_eq!(auth.token, "t");
    assert!(auth.enabled);
    let auth = AuthConfig::from_parts(None, false).unwrap();
    assert_eq!(auth.token, "");
    assert!(!auth.enabled);
}

fn service(name: &str, listen: u16, backend: &str) -> ServerConfig {
    ServerConfig {
        name: name.to_string(),
        listen,
        backend: backend.to_string(),
        start: "true".to_string(),
        stop: "true".to_string(),
        health: default_health(),
        idle_timeout: 1,
        startup_timeout: 1,
        startup_poll_interval: 1,
        auth: None,
    }
}

fn fault(servers: Vec<ServerConfig>) -> String {
    Config { auth: None, servers }.validate().unwrap_err().message()
}

#[test]
fn faults_say_what_is_wrong() {
    assert_eq!(fault(vec![]), "No servers configured");
    assert_eq!(
        fault(vec![service("a", 8000, "x"), service("b", 8000, "y")]),
        "Duplicate listen port 8000 for server 'b'"
    );
    assert_eq!(fault(vec![service("", 1, "x")]), "Server name cannot be empty");
    assert_eq!(
        fault(vec![service("a", 1, "")]),
        "Backend address cannot be empty for server 'a'"
    );
    assert_eq!(
        fault(vec![service("a", 0, "x"), service("b", 0, "y")]),
        "Duplicate listen port 0 for server 'b'"
    );
}

#[test]
fn the_first_fault_is_told() {
    // The second service has every fault; its port comes first.
    let servers = vec![service("a", 7, "x"), service("", 7, ""), service("", 8, "")];
    match (Config { auth: None, servers }).validate() {
        Err(ConfigError::DuplicatePort { port, name }) => {
            assert_eq!(port, 7);
            assert_eq!(name, "");
        }
        other => panic!("{:?}", other),
    }
    let servers = vec![service("a", 7, "x"), service("", 8, ""), service("c", 7, "y")];
    assert!(matches!(
        Config { auth: None, servers }.validate(),
        Err(ConfigError::EmptyName)
    ));
}

#[test]
fn configurations_in_order_are_accepted() {
    let servers = vec![service("a", 7, "x"), service("a", 8, "x"), service("c", 65535, "y")];
    assert!(Config { auth: None, servers }.validate().is_ok());
}

#[test]
fn listen_addresses_hold_interface_and_port() {
    assert_eq!(service("a", 65535, "x").listen_address("0.0.0.0"), "0.0.0.0:65535");
    assert_eq!(service("a", 0, "x").listen_address("::1"), "::1:0");
    assert_eq!(service("a", 1200, "x").listen_address(""), ":1200");
}

#[test]
fn a_command_is_no_managed_subprocess() {
    let mut config = service("a", 1, "x");
    assert!(!config.is_managed_subprocess());
    config.stop = "managed-subprocess ".to_string();
    assert!(!config.is_managed_subprocess());
}

#[test]
fn disabled_settings_ask_for_no_token() {
    let off = AuthConfig { token: "t".to_string(), enabled: false };
    let mut config = Config { auth: Some(off.clone()), servers: vec![service("a", 1, "x")] };
    assert_eq!(config.effective_token(&config.servers[0]), None);
    config.auth = Some(AuthConfig { token: "t".to_string(), enabled: true });
    assert_eq!(config.effective_token(&config.servers[0]), Some("t"));
    config.servers[0].auth = Some(off);
    assert_eq!(config.effective_token(&config.servers[0]), None);
}

#[test]
fn services_are_set_up_with_their_tokens() {
    let mut own = service("b", 2, "y");
    own.auth = Some(AuthConfig { token: "own".to_string(), enabled: true });
    let config = Config {
        auth: Some(AuthConfig { token: "all".to_string(), enabled: true }),
        servers: vec![service("a", 1, "x"), own],
    };
    let servers = config.managed_servers(Moment::new(5, 0));
    assert_eq!(servers.len(), 2);
    assert_eq!(servers[0].config.name, "a");
    assert_eq!(servers[0].auth_token.as_deref(), Some("all"));
    assert_eq!(servers[1].config.listen, 2);
    assert_eq!(servers[1].auth_token.as_deref(), Some("own"));
    assert_eq!(servers[1].state, ServerState::Stopped);
    assert!(!servers[1].has_child);
    assert_eq!(servers[0].idle_seconds(Moment::new(9, 0)), 4);
}
