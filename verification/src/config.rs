//! The configuration: which services stand behind which port, how they are
//! started and stopped, and who may use them.

use std::collections::HashSet;
use vstd::prelude::*;
use vstd::string::*;

use crate::auth::opt_text;
use crate::text::{decimal, decimal_string, same_text};

verus! {

broadcast use vstd::std_specs::hash::group_hash_axioms;

/// The configuration of the proxy.
#[derive(Debug, Clone)]
pub struct Config {
    pub auth: Option<AuthConfig>,
    pub servers: Vec<ServerConfig>,
}

/// A token, and whether requests have to present it.
#[derive(Debug)]
pub struct AuthConfig {
    pub token: String,
    pub enabled: bool,
}

/// The configuration of one service.
#[derive(Debug)]
pub struct ServerConfig {
    pub name: String,
    pub listen: u16,
    pub backend: String,
    pub start: String,
    pub stop: String,
    pub health: String,
    pub idle_timeout: u64,
    pub startup_timeout: u64,
    pub startup_poll_interval: u64,
    pub auth: Option<AuthConfig>,
}

/// Authentication is enabled where the configuration does not say.
pub fn default_true() -> (enabled: bool)
    ensures
        enabled,
{
    true
}

/// The health check path where the configuration gives none.
pub fn default_health() -> (path: String)
    ensures
        path@ == "/health"@,
{
    "/health".to_owned()
}

/// The seconds without a request after which a service is stopped, where the
/// configuration gives none.
pub fn default_idle_timeout() -> (seconds: u64)
    ensures
        seconds == 600,
{
    600
}

/// The seconds that a service has to become healthy, where the configuration
/// gives none.
pub fn default_startup_timeout() -> (seconds: u64)
    ensures
        seconds == 300,
{
    300
}

/// The seconds between two health checks, where the configuration gives none.
pub fn default_startup_poll_interval() -> (seconds: u64)
    ensures
        seconds == 2,
{
    2
}

impl AuthConfig {
    /// The setting that a configuration makes with a token, where it gives one, and
    /// with authentication enabled or not. The token may be left out only where
    /// authentication is disabled; else there is no setting.
    pub fn from_parts(token: Option<String>, enabled: bool) -> (setting: Option<AuthConfig>)
        ensures
            setting is None <==> enabled && token is None,
            setting matches Some(auth) ==> auth.enabled == enabled && auth.token@ == match token {
                Some(text) => text@,
                None => Seq::<char>::empty(),
            },
    {
        match token {
            Some(token) => Some(AuthConfig { token, enabled }),
            None => if enabled {
                None
            } else {
                proof {
                    reveal_strlit("");
                }
                Some(AuthConfig { token: "".to_owned(), enabled })
            },
        }
    }
}

impl Clone for AuthConfig {
    fn clone(&self) -> (copy: Self)
        ensures
            copy == *self,
    {
        AuthConfig { token: self.token.clone(), enabled: self.enabled }
    }
}

impl Clone for ServerConfig {
    fn clone(&self) -> (copy: Self)
        ensures
            copy == *self,
    {
        ServerConfig {
            name: self.name.clone(),
            listen: self.listen,
            backend: self.backend.clone(),
            start: self.start.clone(),
            stop: self.stop.clone(),
            health: self.health.clone(),
            idle_timeout: self.idle_timeout,
            startup_timeout: self.startup_timeout,
            startup_poll_interval: self.startup_poll_interval,
            auth: match &self.auth {
                Some(auth) => Some(auth.clone()),
                None => None,
            },
        }
    }
}

impl ServerConfig {
    /// Whether the proxy runs the service as a child process of its own.
    pub open spec fn managed(&self) -> bool {
        self.stop@ == "managed-subprocess"@
    }

    /// The address of `path` at the service.
    pub open spec fn url(&self, path: Seq<char>) -> Seq<char> {
        "http://"@ + self.backend@ + path
    }

    /// Whether the proxy runs the service as a child process of its own, in place
    /// of having it started and stopped by commands.
    pub fn is_managed_subprocess(&self) -> (managed: bool)
        ensures
            managed == self.managed(),
    {
        same_text(self.stop.as_str(), "managed-subprocess")
    }

    /// The address of `path` at the service.
    pub fn backend_url(&self, path: &str) -> (url: String)
        ensures
            url@ == self.url(path@),
    {
        let mut url = "http://".to_owned();
        url.append(self.backend.as_str());
        url.append(path);
        url
    }

    /// The address at which the proxy listens for the service, on the interface
    /// `bind`.
    pub fn listen_address(&self, bind: &str) -> (address: String)
        ensures
            address@ == bind@ + ":"@ + decimal(self.listen as nat),
    {
        let mut address = bind.to_owned();
        address.append(":");
        address.append(decimal_string(self.listen as u64).as_str());
        address
    }
}

/// Why a configuration is not accepted.
#[derive(Debug)]
pub enum ConfigError {
    NoServers,
    DuplicatePort { port: u16, name: String },
    EmptyName,
    EmptyBackend { name: String },
}

/// The contents of a [`ConfigError`].
#[verifier::ext_equal]
pub enum Fault {
    NoServers,
    DuplicatePort { port: u16, name: Seq<char> },
    EmptyName,
    EmptyBackend { name: Seq<char> },
}

impl View for ConfigError {
    type V = Fault;

    open spec fn view(&self) -> Fault {
        match *self {
            ConfigError::NoServers => Fault::NoServers,
            ConfigError::DuplicatePort { port, name } => Fault::DuplicatePort { port, name: name@ },
            ConfigError::EmptyName => Fault::EmptyName,
            ConfigError::EmptyBackend { name } => Fault::EmptyBackend { name: name@ },
        }
    }
}

/// What is said of a configuration that is not accepted.
pub open spec fn fault_message(fault: Fault) -> Seq<char> {
    match fault {
        Fault::NoServers => "No servers configured"@,
        Fault::DuplicatePort { port, name } => "Duplicate listen port "@ + decimal(port as nat)
            + " for server '"@ + name + "'"@,
        Fault::EmptyName => "Server name cannot be empty"@,
        Fault::EmptyBackend { name } => "Backend address cannot be empty for server '"@ + name
            + "'"@,
    }
}

impl ConfigError {
    /// The error in words.
    pub fn message(&self) -> (text: String)
        ensures
            text@ == fault_message(self@),
    {
        match self {
            ConfigError::NoServers => "No servers configured".to_owned(),
            ConfigError::DuplicatePort { port, name } => {
                let mut text = "Duplicate listen port ".to_owned();
                text.append(decimal_string(*port as u64).as_str());
                text.append(" for server '");
                text.append(name.as_str());
                text.append("'");
                text
            },
            ConfigError::EmptyName => "Server name cannot be empty".to_owned(),
            ConfigError::EmptyBackend { name } => {
                let mut text = "Backend address cannot be empty for server '".to_owned();
                text.append(name.as_str());
                text.append("'");
                text
            },
        }
    }
}

/// Whether one of the first `n` services listens on `port`.
pub open spec fn port_taken(servers: Seq<ServerConfig>, n: int, port: u16) -> bool {
    exists|j: int| 0 <= j < n && (#[trigger] servers[j]).listen == port
}

/// What is wrong with the service at position `i`, given those before it.
pub open spec fn fault_at(servers: Seq<ServerConfig>, i: int) -> Option<Fault> {
    let server = servers[i];
    if port_taken(servers, i, server.listen) {
        Some(Fault::DuplicatePort { port: server.listen, name: server.name@ })
    } else if server.name@.len() == 0 {
        Some(Fault::EmptyName)
    } else if server.backend@.len() == 0 {
        Some(Fault::EmptyBackend { name: server.name@ })
    } else {
        None
    }
}

/// The first thing that is wrong among the first `n` services.
pub open spec fn first_fault(servers: Seq<ServerConfig>, n: nat) -> Option<Fault>
    decreases n,
{
    if n == 0 {
        None
    } else {
        match first_fault(servers, (n - 1) as nat) {
            Some(fault) => Some(fault),
            None => fault_at(servers, n - 1),
        }
    }
}

/// What is wrong with a configuration, if anything.
pub open spec fn config_fault(servers: Seq<ServerConfig>) -> Option<Fault> {
    if servers.len() == 0 {
        Some(Fault::NoServers)
    } else {
        first_fault(servers, servers.len())
    }
}

/// A fault among the first services is one among more of them.
proof fn lemma_first_fault_stays(servers: Seq<ServerConfig>, n: nat, m: nat)
    requires
        n <= m,
        first_fault(servers, n) is Some,
    ensures
        first_fault(servers, m) == first_fault(servers, n),
    decreases m,
{
    if n < m {
        lemma_first_fault_stays(servers, n, (m - 1) as nat);
    }
}

/// The token that requests to `server` have to present, if any.
pub open spec fn token_for(config: Config, server: ServerConfig) -> Option<Seq<char>> {
    match (server.auth, config.auth) {
        (Some(auth), _) => if auth.enabled {
            Some(auth.token@)
        } else {
            None
        },
        (None, Some(auth)) => if auth.enabled {
            Some(auth.token@)
        } else {
            None
        },
        (None, None) => None,
    }
}

impl Config {
    /// Accepts a configuration, or says what is wrong with it: of the first
    /// service that is not in order, the first of a port that an earlier one
    /// has, an empty name, an empty backend.
    pub fn validate(&self) -> (checked: Result<(), ConfigError>)
        ensures
            checked is Ok <==> config_fault(self.servers@) is None,
            checked matches Err(error) ==> config_fault(self.servers@) == Some(error@),
    {
        if self.servers.len() == 0 {
            return Err(ConfigError::NoServers);
        }
        let mut ports: HashSet<u16> = HashSet::new();
        for i in 0..self.servers.len()
            invariant
                self.servers@.len() > 0,
                first_fault(self.servers@, i as nat) is None,
                forall|port: u16| #[trigger]
                    ports@.contains(port) <==> port_taken(self.servers@, i as int, port),
        {
            let server = &self.servers[i];
            let ghost before = ports@;
            let fresh = ports.insert(server.listen);
            let fault = if !fresh {
                Some(ConfigError::DuplicatePort { port: server.listen, name: server.name.clone() })
            } else if server.name.as_str().is_empty() {
                Some(ConfigError::EmptyName)
            } else if server.backend.as_str().is_empty() {
                Some(ConfigError::EmptyBackend { name: server.name.clone() })
            } else {
                None
            };
            assert(fresh <==> !port_taken(self.servers@, i as int, server.listen));
            if let Some(error) = fault {
                proof {
                    lemma_first_fault_stays(self.servers@, (i + 1) as nat, self.servers@.len());
                }
                return Err(error);
            }
            assert forall|port: u16| #[trigger] ports@.contains(port) <==> port_taken(
                self.servers@,
                i + 1,
                port,
            ) by {
                if before.contains(port) {
                    let j = choose|j: int|
                        0 <= j < i && (#[trigger] self.servers@[j]).listen == port;
                    assert(self.servers@[j].listen == port);
                }
                if port == server.listen {
                    assert(self.servers@[i as int].listen == port);
                }
                if port_taken(self.servers@, i + 1, port) && port != server.listen {
                    let j = choose|j: int|
                        0 <= j < i + 1 && (#[trigger] self.servers@[j]).listen == port;
                    assert(0 <= j < i && self.servers@[j].listen == port);
                }
            }
        }
        Ok(())
    }

    /// The token that requests to `server` have to present, if any: the service's
    /// own setting where it has one, else the one for all.
    pub fn effective_token<'a>(&'a self, server: &'a ServerConfig) -> (token: Option<&'a str>)
        ensures
            opt_text(token) == token_for(*self, *server),
    {
        match &server.auth {
            Some(auth) => if auth.enabled {
                Some(auth.token.as_str())
            } else {
                None
            },
            None => match &self.auth {
                Some(auth) => if auth.enabled {
                    Some(auth.token.as_str())
                } else {
                    None
                },
                None => None,
            },
        }
    }
}

/// An accepted configuration has a service, no two services listen on one port,
/// and each has a name and a backend; and every such configuration is accepted.
pub proof fn accepted_configurations(servers: Seq<ServerConfig>)
    ensures
        config_fault(servers) is None <==> {
            &&& servers.len() > 0
            &&& forall|i: int, j: int|
                0 <= i < j < servers.len() ==> (#[trigger] servers[i]).listen != (
                #[trigger] servers[j]).listen
            &&& forall|i: int|
                0 <= i < servers.len() ==> (#[trigger] servers[i]).name@.len() > 0
                    && servers[i].backend@.len() > 0
        },
{
    if servers.len() > 0 {
        lemma_no_fault(servers, servers.len());
        if config_fault(servers) is None {
            assert forall|i: int, j: int| 0 <= i < j < servers.len() implies (
            #[trigger] servers[i]).listen != (#[trigger] servers[j]).listen by {
                assert(fault_at(servers, j) is None);
                assert(!port_taken(servers, j, servers[j].listen));
            }
            assert forall|i: int| 0 <= i < servers.len() implies (
            #[trigger] servers[i]).name@.len() > 0 && servers[i].backend@.len() > 0 by {
                assert(fault_at(servers, i) is None);
            }
        }
    }
}

proof fn lemma_no_fault(servers: Seq<ServerConfig>, n: nat)
    requires
        n <= servers.len(),
    ensures
        first_fault(servers, n) is None <==> forall|i: int|
            0 <= i < n ==> #[trigger] fault_at(servers, i) is None,
    decreases n,
{
    if n > 0 {
        lemma_no_fault(servers, (n - 1) as nat);
        assert(first_fault(servers, n) is None ==> fault_at(servers, n - 1) is None);
    }
}

/// A service's own setting decides alone: what is set for all services makes no
/// difference to it.
pub proof fn own_setting_decides(one: Config, other: Config, server: ServerConfig)
    requires
        server.auth is Some,
    ensures
        token_for(one, server) == token_for(other, server),
{
}

/// A service whose own setting is disabled asks for no token.
pub proof fn disabled_asks_for_no_token(config: Config, server: ServerConfig)
    requires
        server.auth is Some,
        !server.auth->0.enabled,
    ensures
        token_for(config, server) is None,
{
}

/// A service runs as a child process exactly where its stop command is the word
/// `managed-subprocess`.
pub proof fn the_stop_command_tells_a_child_process(config: ServerConfig)
    ensures
        config.managed() <==> config.stop@ == "managed-subprocess"@,
{
}

/// The address of a path is `http://`, the whole backend and the whole path.
pub proof fn addresses_are_backend_and_path(config: ServerConfig, path: Seq<char>)
    ensures
        config.url(path) == "http://"@ + config.backend@ + path,
{
}

/// The token that holds for a service is its own where it has a setting that is
/// enabled, and the one for all where it has no setting and that one is enabled;
/// there is none otherwise.
pub proof fn tokens_come_from_enabled_settings(config: Config, server: ServerConfig)
    ensures
        server.auth matches Some(own) ==> {
            &&& own.enabled ==> token_for(config, server) == Some(own.token@)
            &&& !own.enabled ==> token_for(config, server) is None
        },
        server.auth is None ==> (config.auth matches Some(all) ==> {
            &&& all.enabled ==> token_for(config, server) == Some(all.token@)
            &&& !all.enabled ==> token_for(config, server) is None
        }),
        server.auth is None && config.auth is None ==> token_for(config, server) is None,
{
}

/// Whether services have ports of their own, names and backends.
pub open spec fn all_in_order(servers: Seq<ServerConfig>) -> bool {
    &&& forall|i: int, j: int|
        0 <= i < j < servers.len() ==> (#[trigger] servers[i]).listen != (
        #[trigger] servers[j]).listen
    &&& forall|i: int|
        0 <= i < servers.len() ==> (#[trigger] servers[i]).name@.len() > 0
            && servers[i].backend@.len() > 0
}

/// What is said of a configuration is about the first service that is not in order:
/// that its port is taken by an earlier one, else that it has no name, else that it
/// has no backend. A configuration without services is said to have none.
pub proof fn the_first_fault_is_told(servers: Seq<ServerConfig>, i: int)
    ensures
        servers.len() == 0 ==> config_fault(servers) == Some(Fault::NoServers),
        0 <= i < servers.len() && all_in_order(servers.take(i)) ==> {
            let server = servers[i];
            let taken = exists|j: int|
                0 <= j < i && (#[trigger] servers[j]).listen == server.listen;
            &&& taken ==> config_fault(servers) == Some(
                Fault::DuplicatePort { port: server.listen, name: server.name@ },
            )
            &&& !taken && server.name@.len() == 0 ==> config_fault(servers) == Some(
                Fault::EmptyName,
            )
            &&& !taken && server.name@.len() > 0 && server.backend@.len() == 0 ==> config_fault(
                servers,
            ) == Some(Fault::EmptyBackend { name: server.name@ })
        },
{
    if 0 <= i < servers.len() && all_in_order(servers.take(i)) {
        let before = servers.take(i);
        assert forall|k: int| 0 <= k < i implies #[trigger] fault_at(servers, k) is None by {
            assert(before[k] == servers[k]);
            if port_taken(servers, k, servers[k].listen) {
                let j = choose|j: int|
                    0 <= j < k && (#[trigger] servers[j]).listen == servers[k].listen;
                assert(before[j].listen != before[k].listen);
            }
        }
        lemma_no_fault(servers, i as nat);
        assert(first_fault(servers, (i + 1) as nat) == fault_at(servers, i));
        if fault_at(servers, i) is Some {
            lemma_first_fault_stays(servers, (i + 1) as nat, servers.len());
        }
    }
}

/// A fault is told with the port and the whole name of the service.
pub proof fn faults_are_told_in_words(error: ConfigError, port: u16, name: String)
    ensures
        fault_message(ConfigError::NoServers@) == "No servers configured"@,
        fault_message(ConfigError::DuplicatePort { port, name }@) == "Duplicate listen port "@
            + decimal(port as nat) + " for server '"@ + name@ + "'"@,
        fault_message(ConfigError::EmptyName@) == "Server name cannot be empty"@,
        fault_message(ConfigError::EmptyBackend { name }@)
            == "Backend address cannot be empty for server '"@ + name@ + "'"@,
        error is NoServers <==> error@ is NoServers,
        error is EmptyName <==> error@ is EmptyName,
        error matches ConfigError::DuplicatePort { port: p, name: n } ==> error@ == (
        Fault::DuplicatePort { port: p, name: n@ }),
        error matches ConfigError::EmptyBackend { name: n } ==> error@ == (Fault::EmptyBackend {
            name: n@,
        }),
{
}

} // verus!
