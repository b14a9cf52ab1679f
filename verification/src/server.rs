//! A service that the proxy starts and stops: its state and what is known of it.

use vstd::prelude::*;
use vstd::string::*;

use crate::clock::{elapsed_seconds, Moment};
use crate::config::{token_for, Config, ServerConfig};

verus! {

/// Whether a service runs.
#[derive(Debug, Clone, Copy, PartialEq, Eq, Structural)]
pub enum ServerState {
    Stopped,
    Starting,
    Running,
    Stopping,
}

/// The name of a state.
pub open spec fn state_name(state: ServerState) -> Seq<char> {
    match state {
        ServerState::Stopped => "stopped"@,
        ServerState::Starting => "starting"@,
        ServerState::Running => "running"@,
        ServerState::Stopping => "stopping"@,
    }
}

impl ServerState {
    /// The name of the state.
    pub fn to_string(&self) -> (name: String)
        ensures
            name@ == state_name(*self),
    {
        match self {
            ServerState::Stopped => "stopped".to_owned(),
            ServerState::Starting => "starting".to_owned(),
            ServerState::Running => "running".to_owned(),
            ServerState::Stopping => "stopping".to_owned(),
        }
    }
}

/// A service behind the proxy. `has_child` says whether a child process of the
/// proxy has been spawned for it and not been awaited yet.
#[derive(Debug)]
pub struct ManagedServer {
    pub config: ServerConfig,
    pub state: ServerState,
    pub last_request: Moment,
    pub has_child: bool,
    pub auth_token: Option<String>,
}

/// The contents of an optional string.
pub open spec fn opt_string(text: Option<String>) -> Option<Seq<char>> {
    match text {
        Some(t) => Some(t@),
        None => None,
    }
}

impl ManagedServer {
    /// The token that requests have to present, if any.
    pub open spec fn token(&self) -> Option<Seq<char>> {
        opt_string(self.auth_token)
    }

    /// The whole seconds that the service has been without a request.
    pub open spec fn idle(&self, now: nat) -> nat {
        elapsed_seconds(self.last_request@, now)
    }

    /// A service that does not run yet, and counts as used at the moment `now`.
    pub fn new(config: ServerConfig, auth_token: Option<String>, now: Moment) -> (server: Self)
        ensures
            server == (ManagedServer {
                config,
                state: ServerState::Stopped,
                last_request: now,
                has_child: false,
                auth_token,
            }),
    {
        ManagedServer {
            config,
            state: ServerState::Stopped,
            last_request: now,
            has_child: false,
            auth_token,
        }
    }

    /// The state of the service.
    pub fn get_state(&self) -> (state: ServerState)
        ensures
            state == self.state,
    {
        self.state
    }

    /// Changes the state of the service, and nothing else.
    pub fn set_state(&mut self, new_state: ServerState)
        ensures
            *final(self) == (ManagedServer { state: new_state, ..*old(self) }),
    {
        self.state = new_state;
    }

    /// Notes a request at the moment `now`, and changes nothing else.
    pub fn touch(&mut self, now: Moment)
        ensures
            *final(self) == (ManagedServer { last_request: now, ..*old(self) }),
    {
        self.last_request = now;
    }

    /// The whole seconds that the service has been without a request.
    pub fn idle_seconds(&self, now: Moment) -> (seconds: u64)
        ensures
            seconds == self.idle(now@),
    {
        now.seconds_since(&self.last_request)
    }
}

/// Whether `server` is what the configuration sets up for the service `config`.
pub open spec fn set_up_for(
    server: ManagedServer,
    all: Config,
    config: ServerConfig,
    now: Moment,
) -> bool {
    &&& server.config == config
    &&& server.state == ServerState::Stopped
    &&& server.last_request == now
    &&& !server.has_child
    &&& server.token() == token_for(all, config)
}

impl Config {
    /// The services of the configuration, none of them running, each with the
    /// token that holds for it.
    pub fn managed_servers(&self, now: Moment) -> (servers: Vec<ManagedServer>)
        ensures
            servers@.len() == self.servers@.len(),
            forall|i: int|
                0 <= i < servers@.len() ==> set_up_for(
                    #[trigger] servers@[i],
                    *self,
                    self.servers@[i],
                    now,
                ),
    {
        let mut servers: Vec<ManagedServer> = Vec::new();
        for i in 0..self.servers.len()
            invariant
                servers@.len() == i,
                forall|j: int|
                    0 <= j < i ==> set_up_for(
                        #[trigger] servers@[j],
                        *self,
                        self.servers@[j],
                        now,
                    ),
        {
            let config = &self.servers[i];
            let token = match self.effective_token(config) {
                Some(token) => Some(token.to_owned()),
                None => None,
            };
            servers.push(ManagedServer::new(config.clone(), token, now));
        }
        servers
    }
}

/// A request never makes a service look idle for longer: after a request at the
/// moment `now`, it has been idle for no longer at any moment from then on.
pub proof fn touch_shortens_idle_time(server: ManagedServer, now: Moment, later: nat)
    requires
        server.last_request@ <= now@ <= later,
    ensures
        (ManagedServer { last_request: now, ..server }).idle(later) <= server.idle(later),
        (ManagedServer { last_request: now, ..server }).idle(now@) == 0,
{
}

/// Each state has its own name.
pub proof fn states_have_names()
    ensures
        state_name(ServerState::Stopped) == "stopped"@,
        state_name(ServerState::Starting) == "starting"@,
        state_name(ServerState::Running) == "running"@,
        state_name(ServerState::Stopping) == "stopping"@,
{
}

/// The token of a service is the text that it was given, if any.
pub proof fn the_token_is_the_given_text(server: ManagedServer)
    ensures
        server.auth_token is None <==> server.token() is None,
        server.auth_token matches Some(text) ==> server.token() == Some(text@),
{
}

/// A service is idle for as many whole seconds as fit between its last request and
/// now, and for none before its last request.
pub proof fn idle_seconds_fit_since_the_last_request(server: ManagedServer, now: nat)
    ensures
        server.last_request@ <= now ==> {
            &&& server.idle(now) * 1_000_000_000 <= now - server.last_request@
            &&& now - server.last_request@ < (server.idle(now) + 1) * 1_000_000_000
        },
        now < server.last_request@ ==> server.idle(now) == 0,
{
}

/// A service is set up as its configuration says, does not run, has no child process
/// and was last used now. It asks for the token of its own setting where it has
/// one, else for that of the setting for all, and only where that is enabled.
pub proof fn services_are_set_up_as_configured(
    server: ManagedServer,
    all: Config,
    config: ServerConfig,
    now: Moment,
)
    requires
        set_up_for(server, all, config, now),
    ensures
        server.config == config,
        server.state == ServerState::Stopped,
        server.last_request == now,
        !server.has_child,
        config.auth matches Some(own) ==> {
            &&& own.enabled ==> (server.auth_token matches Some(text) && text@ == own.token@)
            &&& !own.enabled ==> server.auth_token is None
        },
        config.auth is None ==> (all.auth matches Some(common) ==> {
            &&& common.enabled ==> (server.auth_token matches Some(text) && text@
                == common.token@)
            &&& !common.enabled ==> server.auth_token is None
        }),
        config.auth is None && all.auth is None ==> server.auth_token is None,
{
}

} // verus!
