//! Handling and forwarding requests.

use hyper::header::HeaderMap;
use hyper::Method;
use vstd::prelude::*;
use vstd::string::*;

use crate::auth::{authorization, check_auth, refusal};
use crate::clock::Moment;
use crate::config::ServerConfig;
use crate::message::{
    all_fields, append_field, field_texts, grouped_by_name, header_fields, header_values, is_uri,
    name_text, names_in, path_and_query, uri_accepted, uri_path_and_query, value_bytes, values_named,
    ROOMY_NAMES,
};
use crate::reply::{
    error_reply, error_response, ErrorReply, ReplyView, BAD_GATEWAY, INTERNAL_SERVER_ERROR,
    SERVICE_UNAVAILABLE,
};
use crate::server::{ManagedServer, ServerState};
use crate::text::same_text;

verus! {

/// A request as it arrives at the proxy.
#[derive(Debug)]
pub struct ProxyRequest<B> {
    pub method: Method,
    pub uri: String,
    pub headers: HeaderMap,
    pub body: B,
}

/// A request as the proxy sends it to the backend.
#[derive(Debug)]
pub struct ForwardedRequest<B> {
    pub method: Method,
    pub uri: String,
    pub headers: HeaderMap,
    pub body: B,
}

/// What a request needs of the service before it can be forwarded.
#[derive(Debug, Clone, Copy, PartialEq, Eq, Structural)]
pub enum EnsureAction {
    /// Nothing: the service runs.
    Ready,
    /// That this request starts the service.
    Start,
    /// That the start on behalf of another request ends.
    AwaitStartup,
    /// That the stop of the service ends.
    AwaitStop,
}

/// The service and what a request needs of it.
pub open spec fn ensure_step(server: ManagedServer) -> (ManagedServer, EnsureAction) {
    match server.state {
        ServerState::Running => (server, EnsureAction::Ready),
        ServerState::Stopped => (
            ManagedServer { state: ServerState::Starting, ..server },
            EnsureAction::Start,
        ),
        ServerState::Starting => (server, EnsureAction::AwaitStartup),
        ServerState::Stopping => (server, EnsureAction::AwaitStop),
    }
}

/// Decides what a request needs of the service; a service that is stopped counts
/// as starting from then on.
pub fn ensure_running(server: &mut ManagedServer) -> (action: EnsureAction)
    ensures
        (*final(server), action) == ensure_step(*old(server)),
{
    match server.get_state() {
        ServerState::Running => EnsureAction::Ready,
        ServerState::Stopped => {
            server.set_state(ServerState::Starting);
            EnsureAction::Start
        },
        ServerState::Starting => EnsureAction::AwaitStartup,
        ServerState::Stopping => EnsureAction::AwaitStop,
    }
}

/// What happened to a request.
#[derive(Debug)]
pub enum RequestEvent {
    /// The request has arrived.
    Arrived,
    /// What the request waited for is over.
    Woken,
    /// The start of the service on behalf of the request has ended.
    StartEnded { result: Result<(), String> },
}

/// What is to be done next for a request.
#[derive(Debug)]
pub enum RequestAction {
    /// Reply to the request, which goes no further.
    Reply { reply: ErrorReply },
    /// Start the service.
    StartBackend,
    /// Wait until the start of the service has ended.
    AwaitStartup,
    /// Wait until the stop of the service has ended.
    AwaitStop,
    /// Forward the request to the service.
    Forward,
}

/// What is to be done for a request, and whether the requests that wait for the
/// start of the service are to be woken first.
#[derive(Debug)]
pub struct RequestDecision {
    pub wake_startup_waiters: bool,
    pub action: RequestAction,
}

/// The contents of a [`RequestAction`].
#[verifier::ext_equal]
pub enum RequestStep {
    Reply { reply: ReplyView },
    StartBackend,
    AwaitStartup,
    AwaitStop,
    Forward,
}

impl View for RequestAction {
    type V = RequestStep;

    open spec fn view(&self) -> RequestStep {
        match *self {
            RequestAction::Reply { reply } => RequestStep::Reply { reply: reply@ },
            RequestAction::StartBackend => RequestStep::StartBackend,
            RequestAction::AwaitStartup => RequestStep::AwaitStartup,
            RequestAction::AwaitStop => RequestStep::AwaitStop,
            RequestAction::Forward => RequestStep::Forward,
        }
    }
}

/// The service and the next step of a request that may use it.
pub open spec fn admitted_step(server: ManagedServer, now: Moment) -> (ManagedServer, RequestStep) {
    let (next, need) = ensure_step(server);
    match need {
        EnsureAction::Ready => (
            ManagedServer { last_request: now, ..next },
            RequestStep::Forward,
        ),
        EnsureAction::Start => (next, RequestStep::StartBackend),
        EnsureAction::AwaitStartup => (next, RequestStep::AwaitStartup),
        EnsureAction::AwaitStop => (next, RequestStep::AwaitStop),
    }
}

/// The service and the next step of a request after an event at the moment
/// `now`. `refused` is the reply to the request where it fails authentication.
pub open spec fn request_step(
    server: ManagedServer,
    refused: Option<ReplyView>,
    event: RequestEvent,
    now: Moment,
) -> (ManagedServer, RequestStep) {
    match event {
        RequestEvent::Arrived => match refused {
            Some(reply) => (server, RequestStep::Reply { reply }),
            None => admitted_step(server, now),
        },
        RequestEvent::Woken => admitted_step(server, now),
        RequestEvent::StartEnded { result } => match result {
            Ok(()) => (
                ManagedServer { state: ServerState::Running, last_request: now, ..server },
                RequestStep::Forward,
            ),
            Err(message) => (
                ManagedServer { state: ServerState::Stopped, ..server },
                RequestStep::Reply { reply: error_reply(SERVICE_UNAVAILABLE, message@) },
            ),
        },
    }
}

/// Whether the requests that wait for the start of the service are to be woken
/// after an event: when a start has ended, well or not.
pub open spec fn wakes_startup_waiters(event: RequestEvent) -> bool {
    event is StartEnded
}

/// The reply to a request that a service refuses, if it does.
pub open spec fn refusal_by<B>(server: ManagedServer, req: ProxyRequest<B>) -> Option<ReplyView> {
    refusal(authorization(req.headers), server.token())
}

fn admitted(server: &mut ManagedServer, now: Moment) -> (action: RequestAction)
    ensures
        (*final(server), action@) == admitted_step(*old(server), now),
{
    match ensure_running(server) {
        EnsureAction::Ready => {
            server.touch(now);
            RequestAction::Forward
        },
        EnsureAction::Start => RequestAction::StartBackend,
        EnsureAction::AwaitStartup => RequestAction::AwaitStartup,
        EnsureAction::AwaitStop => RequestAction::AwaitStop,
    }
}

/// Leads a request through the proxy: it is authenticated, then the service is
/// started where it does not run, then the request counts as the latest one and
/// is forwarded.
pub fn handle_request<B>(
    server: &mut ManagedServer,
    req: &ProxyRequest<B>,
    event: RequestEvent,
    now: Moment,
) -> (decision: RequestDecision)
    ensures
        (*final(server), decision.action@) == request_step(
            *old(server),
            refusal_by(*old(server), *req),
            event,
            now,
        ),
        decision.wake_startup_waiters == wakes_startup_waiters(event),
{
    match event {
        RequestEvent::Arrived => {
            let expected = match &server.auth_token {
                Some(token) => Some(token.as_str()),
                None => None,
            };
            let action = match check_auth(req, expected) {
                Err(reply) => RequestAction::Reply { reply },
                Ok(()) => admitted(server, now),
            };
            RequestDecision { wake_startup_waiters: false, action }
        },
        RequestEvent::Woken => RequestDecision {
            wake_startup_waiters: false,
            action: admitted(server, now),
        },
        RequestEvent::StartEnded { result } => {
            let action = match result {
                Ok(()) => {
                    server.set_state(ServerState::Running);
                    server.touch(now);
                    RequestAction::Forward
                },
                Err(message) => {
                    server.set_state(ServerState::Stopped);
                    RequestAction::Reply {
                        reply: error_response(SERVICE_UNAVAILABLE, message.as_str()),
                    }
                },
            };
            RequestDecision { wake_startup_waiters: true, action }
        },
    }
}

/// The address to which a request of this path and query is forwarded; one
/// without goes to the root.
pub open spec fn forward_url(config: ServerConfig, path: Option<Seq<char>>) -> Seq<char> {
    config.url(
        match path {
            Some(p) => p,
            None => "/"@,
        },
    )
}

/// The reply to a request that cannot be rebuilt for the backend.
pub open spec fn rebuild_failure() -> ReplyView {
    error_reply(INTERNAL_SERVER_ERROR, "Failed to build request"@)
}

/// Header fields without those named `host`.
pub open spec fn without_host(fields: Seq<(Seq<char>, Seq<u8>)>) -> Seq<(Seq<char>, Seq<u8>)>
    decreases fields.len(),
{
    if fields.len() == 0 {
        seq![]
    } else if fields.last().0 == "host"@ {
        without_host(fields.drop_last())
    } else {
        without_host(fields.drop_last()).push(fields.last())
    }
}

/// Whether the fields of a header map, but for `host`, stand under so few names that
/// another map always takes them.
pub open spec fn has_room(headers: HeaderMap) -> bool {
    names_in(without_host(header_fields(headers))).len() < ROOMY_NAMES
}

/// Whether `forwarded` is the request `req`, sent to the address `url`.
pub open spec fn forwards<B>(
    forwarded: ForwardedRequest<B>,
    req: ProxyRequest<B>,
    url: Seq<char>,
) -> bool {
    &&& forwarded.method == req.method
    &&& forwarded.uri@ == url
    &&& header_fields(forwarded.headers) == without_host(header_fields(req.headers))
    &&& forwarded.body == req.body
}

/// The address to which a request of this path and query is forwarded.
pub fn forward_uri(config: &ServerConfig, path: Option<&str>) -> (uri: String)
    ensures
        uri@ == forward_url(
            *config,
            match path {
                Some(p) => Some(p@),
                None => None,
            },
        ),
{
    match path {
        Some(path) => config.backend_url(path),
        None => config.backend_url("/"),
    }
}

/// What is left are some of the fields, none of them named `host`.
proof fn lemma_without_host(fields: Seq<(Seq<char>, Seq<u8>)>)
    ensures
        without_host(fields).len() <= fields.len(),
        forall|i: int|
            0 <= i < without_host(fields).len() ==> {
                &&& (#[trigger] without_host(fields)[i]).0 != "host"@
                &&& fields.contains(without_host(fields)[i])
            },
    decreases fields.len(),
{
    if fields.len() > 0 {
        let front = fields.drop_last();
        lemma_without_host(front);
        assert forall|i: int| 0 <= i < without_host(fields).len() implies {
            &&& (#[trigger] without_host(fields)[i]).0 != "host"@
            &&& fields.contains(without_host(fields)[i])
        } by {
            if i < without_host(front).len() {
                let left = without_host(front)[i];
                let k = choose|k: int| 0 <= k < front.len() && front[k] == left;
                assert(fields[k] == left);
            } else {
                assert(fields[fields.len() - 1] == fields.last());
            }
        }
    }
}

/// The first fields have no name that is not among those of all.
proof fn lemma_first_names(fields: Seq<(Seq<char>, Seq<u8>)>, n: int)
    requires
        0 <= n <= fields.len(),
    ensures
        names_in(without_host(fields.take(n))).subset_of(names_in(without_host(fields))),
    decreases fields.len(),
{
    if n == fields.len() {
        assert(fields.take(n) =~= fields);
    } else {
        let front = fields.drop_last();
        assert(front.take(n) =~= fields.take(n));
        lemma_first_names(front, n);
        let few = without_host(front);
        let all = without_host(fields);
        let name = |field: (Seq<char>, Seq<u8>)| field.0;
        assert forall|text: Seq<char>| names_in(few).contains(text) implies names_in(
            all,
        ).contains(text) by {
            let k = choose|k: int|
                0 <= k < few.map_values(name).len() && few.map_values(name)[k] == text;
            assert(all[k] == few[k]);
            assert(all.map_values(name)[k] == text);
        }
    }
}

/// Copies the fields of a header map, but for the `host` fields. There is no copy
/// where the map is too large to be filled anew.
pub fn copy_headers(headers: &HeaderMap) -> (copy: Option<HeaderMap>)
    ensures
        has_room(*headers) ==> copy is Some,
        copy matches Some(c) ==> header_fields(c) == without_host(header_fields(*headers)),
{
    let mut copy = HeaderMap::new();
    let fields = all_fields(headers);
    let ghost all = header_fields(*headers);
    assert(all.take(0) =~= seq![]);
    for i in 0..fields.len()
        invariant
            all == header_fields(*headers),
            grouped_by_name(all),
            all == field_texts(fields@),
            header_fields(copy) == without_host(all.take(i as int)),
    {
        let (name, value) = fields[i];
        let ghost read = all.take(i as int);
        proof {
            assert(all[i as int] == (name_text(*name), value_bytes(*value)));
            assert(all.take(i + 1).drop_last() =~= read);
            assert(all.take(i + 1).last() == all[i as int]);
            lemma_without_host(read);
        }
        if !same_text(name.as_str(), "host") {
            let ghost before = header_fields(copy);
            proof {
                if exists|k: int|
                    0 <= k < before.len() && (#[trigger] before[k]).0 == name_text(*name) {
                    let k = choose|k: int|
                        0 <= k < before.len() && (#[trigger] before[k]).0 == name_text(*name);
                    assert(read.contains(before[k]));
                    let j = choose|j: int| 0 <= j < read.len() && read[j] == before[k];
                    assert(all[j].0 == all[i as int].0);
                    assert(all[i - 1].0 == name_text(*name));
                    assert(read.last() == all[i - 1]);
                }
            }
            if append_field(&mut copy, name, value).is_err() {
                proof {
                    lemma_first_names(all, i as int);
                    vstd::seq_lib::seq_to_set_is_finite(
                        without_host(all).map_values(|field: (Seq<char>, Seq<u8>)| field.0),
                    );
                    vstd::set_lib::lemma_len_subset(
                        names_in(before),
                        names_in(without_host(all)),
                    );
                }
                return None;
            }
        }
    }
    assert(all.take(all.len() as int) =~= all);
    Some(copy)
}

/// Makes the reply to a request that cannot be rebuilt for the backend.
pub fn build_failure() -> (reply: ErrorReply)
    ensures
        reply@ == rebuild_failure(),
{
    error_response(INTERNAL_SERVER_ERROR, "Failed to build request")
}

/// Rebuilds a request for the backend at the address `uri`, which is one where
/// `accepted` says so.
pub fn rebuild_request<B>(req: ProxyRequest<B>, uri: String, accepted: bool) -> (rebuilt: Result<
    ForwardedRequest<B>,
    ErrorReply,
>)
    ensures
        rebuilt is Ok ==> accepted,
        accepted && has_room(req.headers) ==> rebuilt is Ok,
        rebuilt matches Ok(forwarded) ==> forwards(forwarded, req, uri@),
        rebuilt matches Err(reply) ==> reply@ == rebuild_failure(),
{
    if accepted {
        if let Some(headers) = copy_headers(&req.headers) {
            return Ok(ForwardedRequest { method: req.method, uri, headers, body: req.body });
        }
    }
    Err(build_failure())
}

/// Rebuilds a request for the backend of a service: with its method, its body and
/// its headers but for `host`, at the address of its path and query.
pub fn forward_request<B>(config: &ServerConfig, req: ProxyRequest<B>) -> (rebuilt: Result<
    ForwardedRequest<B>,
    ErrorReply,
>)
    ensures
        ({
            let url = forward_url(*config, uri_path_and_query(req.uri@));
            &&& rebuilt is Ok ==> uri_accepted(url)
            &&& uri_accepted(url) && has_room(req.headers) ==> rebuilt is Ok
            &&& rebuilt matches Ok(forwarded) ==> forwards(forwarded, req, url)
            &&& rebuilt matches Err(reply) ==> reply@ == rebuild_failure()
        }),
{
    let path = path_and_query(req.uri.as_str());
    let uri = match &path {
        Some(path) => forward_uri(config, Some(path.as_str())),
        None => forward_uri(config, None),
    };
    let accepted = is_uri(uri.as_str());
    rebuild_request(req, uri, accepted)
}

/// The reply to a request that could not be sent to the backend, with the reason
/// in words.
pub fn backend_failure(error: &str) -> (reply: ErrorReply)
    ensures
        reply@ == error_reply(BAD_GATEWAY, "Backend error: "@ + error@),
{
    let mut message = "Backend error: ".to_owned();
    message.append(error);
    error_response(BAD_GATEWAY, message.as_str())
}

/// Whether an event is an answer to what was to be done next for a request.
pub open spec fn answers_request(step: RequestStep, event: RequestEvent) -> bool {
    match step {
        RequestStep::StartBackend => event is StartEnded,
        RequestStep::AwaitStartup => event is Woken,
        RequestStep::AwaitStop => event is Woken,
        RequestStep::Reply { .. } => false,
        RequestStep::Forward => false,
    }
}

/// An event of a request: the service as the request finds it, what happened, and
/// when.
pub struct Encounter {
    pub server: ManagedServer,
    pub event: RequestEvent,
    pub now: Moment,
}

/// What is done for a request after an event.
pub open spec fn encounter_step(refused: Option<ReplyView>, at: Encounter) -> RequestStep {
    request_step(at.server, refused, at.event, at.now).1
}

/// Whether the events are those of one request from its arrival. In between, the
/// service may have changed in any way.
pub open spec fn is_request_run(refused: Option<ReplyView>, run: Seq<Encounter>) -> bool {
    &&& run.len() > 0
    &&& run[0].event is Arrived
    &&& forall|i: int|
        0 < i < run.len() ==> answers_request(
            encounter_step(refused, run[i - 1]),
            (#[trigger] run[i]).event,
        )
}

/// A request that fails authentication gets the reply that says so, and that is
/// all: it starts no service and is not forwarded, and the service stays as it
/// is.
pub proof fn refused_requests_go_no_further(reply: ReplyView, run: Seq<Encounter>)
    requires
        is_request_run(Some(reply), run),
    ensures
        run.len() == 1,
        encounter_step(Some(reply), run[0]) == (RequestStep::Reply { reply }),
        request_step(run[0].server, Some(reply), run[0].event, run[0].now).0 == run[0].server,
{
    if run.len() > 1 {
        assert(answers_request(encounter_step(Some(reply), run[0]), run[1].event));
    }
}

/// Only an authenticated request starts a service or is forwarded.
pub proof fn only_authenticated_requests_pass(
    refused: Option<ReplyView>,
    run: Seq<Encounter>,
    i: int,
)
    requires
        is_request_run(refused, run),
        0 <= i < run.len(),
        encounter_step(refused, run[i]) is Forward || encounter_step(refused, run[i])
            is StartBackend,
    ensures
        refused is None,
{
    if let Some(reply) = refused {
        refused_requests_go_no_further(reply, run);
    }
}

/// A request is forwarded only to a service that then runs, and counts as its
/// latest request.
pub proof fn forwarded_means_running(
    server: ManagedServer,
    refused: Option<ReplyView>,
    event: RequestEvent,
    now: Moment,
)
    requires
        request_step(server, refused, event, now).1 is Forward,
    ensures
        request_step(server, refused, event, now).0 == (ManagedServer {
            state: ServerState::Running,
            last_request: now,
            ..server
        }),
        server.state == ServerState::Running || event is StartEnded,
{
}

/// An authenticated request that finds the service running is forwarded at once.
pub proof fn running_service_is_used(server: ManagedServer, now: Moment)
    requires
        server.state == ServerState::Running,
    ensures
        request_step(server, None, RequestEvent::Arrived, now).1 is Forward,
{
}

/// An authenticated request that finds the service stopped starts it, and is
/// forwarded once the start has ended well; from then on the service runs.
pub proof fn stopped_service_is_started_and_used(server: ManagedServer, now: Moment, later: Moment)
    requires
        server.state == ServerState::Stopped,
    ensures
        ({
            let (starting, first) = request_step(server, None, RequestEvent::Arrived, now);
            let (running, second) = request_step(
                starting,
                None,
                RequestEvent::StartEnded { result: Ok(()) },
                later,
            );
            &&& first is StartBackend
            &&& starting.state == ServerState::Starting
            &&& second is Forward
            &&& running == (ManagedServer {
                state: ServerState::Running,
                last_request: later,
                ..server
            })
        }),
{
}

/// A start that fails is answered with its message, and the next request that may
/// use the service starts it again.
pub proof fn failed_start_can_be_repeated(
    server: ManagedServer,
    refused: Option<ReplyView>,
    message: String,
    now: Moment,
    later: Moment,
)
    ensures
        ({
            let (failed, step) = request_step(
                server,
                refused,
                RequestEvent::StartEnded { result: Err(message) },
                now,
            );
            &&& step == (RequestStep::Reply {
                reply: error_reply(SERVICE_UNAVAILABLE, message@),
            })
            &&& request_step(failed, None, RequestEvent::Arrived, later).1 is StartBackend
            &&& request_step(failed, None, RequestEvent::Woken, later).1 is StartBackend
        }),
{
}

/// A forwarded request has no `host` field, and under every other name the values
/// of the request in their order.
pub proof fn only_host_is_not_forwarded<B>(
    forwarded: ForwardedRequest<B>,
    req: ProxyRequest<B>,
    url: Seq<char>,
    name: Seq<char>,
)
    requires
        forwards(forwarded, req, url),
    ensures
        header_values(forwarded.headers, name) == if name == "host"@ {
            Seq::<Seq<u8>>::empty()
        } else {
            header_values(req.headers, name)
        },
{
    lemma_values_without_host(header_fields(req.headers), name);
}

proof fn lemma_values_without_host(fields: Seq<(Seq<char>, Seq<u8>)>, name: Seq<char>)
    ensures
        values_named(without_host(fields), name) == if name == "host"@ {
            Seq::<Seq<u8>>::empty()
        } else {
            values_named(fields, name)
        },
    decreases fields.len(),
{
    if fields.len() > 0 {
        let front = fields.drop_last();
        lemma_values_without_host(front, name);
        if fields.last().0 != "host"@ {
            assert(without_host(fields).drop_last() =~= without_host(front));
        }
    }
}

/// What is seen of the next thing to do for a request is all there is to it.
pub proof fn request_actions_are_seen_whole(action: RequestAction)
    ensures
        match action {
            RequestAction::Reply { reply } => {
                &&& action@ matches RequestStep::Reply { reply: seen }
                &&& seen.status == reply.status
                &&& seen.content_type == reply.content_type@
                &&& seen.body == reply.body@
            },
            RequestAction::StartBackend => action@ is StartBackend,
            RequestAction::AwaitStartup => action@ is AwaitStartup,
            RequestAction::AwaitStop => action@ is AwaitStop,
            RequestAction::Forward => action@ is Forward,
        },
{
}

/// What a request needs depends on the state of the service alone: nothing of one
/// that runs, a start of one that is stopped, and that the start or stop which is
/// under way ends. Only the start changes the service, which then counts as
/// starting.
pub proof fn the_state_tells_what_a_request_needs(server: ManagedServer)
    ensures
        server.state == ServerState::Running ==> ensure_step(server) == (
            server,
            EnsureAction::Ready,
        ),
        server.state == ServerState::Stopped ==> ensure_step(server) == (
            ManagedServer { state: ServerState::Starting, ..server },
            EnsureAction::Start,
        ),
        server.state == ServerState::Starting ==> ensure_step(server) == (
            server,
            EnsureAction::AwaitStartup,
        ),
        server.state == ServerState::Stopping ==> ensure_step(server) == (
            server,
            EnsureAction::AwaitStop,
        ),
{
}

/// A request that passes authentication, or that has waited, is forwarded where the
/// service runs, and then counts as its latest; it starts the service where that is
/// stopped; else it waits for what is under way.
pub proof fn the_state_leads_a_request(
    server: ManagedServer,
    refused: Option<ReplyView>,
    event: RequestEvent,
    now: Moment,
)
    requires
        event is Woken || (event is Arrived && refused is None),
    ensures
        request_step(server, refused, event, now) == match server.state {
            ServerState::Running => (
                ManagedServer { last_request: now, ..server },
                RequestStep::Forward,
            ),
            ServerState::Stopped => (
                ManagedServer { state: ServerState::Starting, ..server },
                RequestStep::StartBackend,
            ),
            ServerState::Starting => (server, RequestStep::AwaitStartup),
            ServerState::Stopping => (server, RequestStep::AwaitStop),
        },
{
}

/// A request that arrives and fails authentication gets the reply that says so, and
/// the service stays as it is.
pub proof fn a_refused_request_is_replied_to(server: ManagedServer, reply: ReplyView, now: Moment)
    ensures
        request_step(server, Some(reply), RequestEvent::Arrived, now) == (
            server,
            RequestStep::Reply { reply },
        ),
{
}

/// A start that ended well leaves the service running, with the request as its
/// latest, and the request is forwarded. One that failed leaves the service
/// stopped, and is told to the request with its whole message and the status 503.
pub proof fn the_end_of_a_start_decides(
    server: ManagedServer,
    refused: Option<ReplyView>,
    message: String,
    now: Moment,
)
    ensures
        request_step(server, refused, RequestEvent::StartEnded { result: Ok(()) }, now) == (
            ManagedServer { state: ServerState::Running, last_request: now, ..server },
            RequestStep::Forward,
        ),
        request_step(server, refused, RequestEvent::StartEnded { result: Err(message) }, now) == (
            ManagedServer { state: ServerState::Stopped, ..server },
            RequestStep::Reply {
                reply: ReplyView {
                    status: 503,
                    content_type: "application/json"@,
                    body: "{\"error\": \""@ + message@ + "\"}"@,
                },
            },
        ),
{
}

/// The requests that wait for a start are woken when it has ended, however it did,
/// and by nothing else.
pub proof fn the_end_of_a_start_wakes(event: RequestEvent)
    ensures
        wakes_startup_waiters(event) <==> (event matches RequestEvent::StartEnded { .. }),
{
}

/// A service without a token refuses no request. One with a token refuses every
/// request but those whose `Authorization` field is `Bearer ` and the token.
pub proof fn services_refuse_by_their_token<B>(server: ManagedServer, req: ProxyRequest<B>)
    ensures
        server.auth_token is None ==> refusal_by(server, req) is None,
        server.auth_token matches Some(token) ==> {
            &&& refusal_by(server, req) == refusal(authorization(req.headers), Some(token@))
            &&& refusal_by(server, req) is None <==> authorization(req.headers) == Some(
                "Bearer "@ + token@,
            )
        },
{
}

/// A request is forwarded to `http://`, the whole backend and the whole path and
/// query of its address, and to the path `/` where it has none.
pub proof fn requests_go_to_the_whole_path(config: ServerConfig, path: Seq<char>)
    ensures
        forward_url(config, Some(path)) == "http://"@ + config.backend@ + path,
        forward_url(config, None) == "http://"@ + config.backend@ + "/"@,
{
}

/// Leaving out the `host` fields leaves every other field as it is and where it is.
pub proof fn fields_but_host_stay_in_place(
    first: Seq<(Seq<char>, Seq<u8>)>,
    second: Seq<(Seq<char>, Seq<u8>)>,
    field: (Seq<char>, Seq<u8>),
)
    ensures
        without_host(Seq::empty()) == Seq::<(Seq<char>, Seq<u8>)>::empty(),
        field.0 == "host"@ ==> without_host(seq![field]) == Seq::<
            (Seq<char>, Seq<u8>),
        >::empty(),
        field.0 != "host"@ ==> without_host(seq![field]) == seq![field],
        without_host(first + second) == without_host(first) + without_host(second),
    decreases second.len(),
{
    let none = Seq::<(Seq<char>, Seq<u8>)>::empty();
    assert(seq![field].drop_last() =~= none);
    assert(none.push(field) =~= seq![field]);
    if second.len() == 0 {
        assert(first + second =~= first);
        assert(without_host(second) =~= none);
        assert(without_host(first) + none =~= without_host(first));
    } else {
        let front = second.drop_last();
        fields_but_host_stay_in_place(first, front, field);
        assert((first + second).drop_last() =~= first + front);
        assert((first + second).last() == second.last());
        assert(without_host(first + second) =~= without_host(first) + without_host(second));
    }
}

/// A forwarded request has the method and the body of the request, the address that
/// it is sent to, and all fields of the request but those named `host`, in order.
pub proof fn forwarded_requests_are_whole<B>(
    forwarded: ForwardedRequest<B>,
    req: ProxyRequest<B>,
    url: Seq<char>,
)
    requires
        forwards(forwarded, req, url),
    ensures
        forwarded.method == req.method,
        forwarded.uri@ == url,
        forwarded.body == req.body,
        header_fields(forwarded.headers) == without_host(header_fields(req.headers)),
{
}

/// A request whose fields, but for `host`, stand under fewer than 6554 names can
/// always be rebuilt, however many fields they are.
pub proof fn few_names_have_room(headers: HeaderMap, names: Set<Seq<char>>)
    requires
        names.finite(),
        names.len() < 6554,
        forall|i: int|
            0 <= i < header_fields(headers).len() && (#[trigger] header_fields(headers)[i]).0
                != "host"@ ==> names.contains(header_fields(headers)[i].0),
    ensures
        has_room(headers),
{
    let fields = header_fields(headers);
    let left = without_host(fields);
    let name = |field: (Seq<char>, Seq<u8>)| field.0;
    lemma_without_host(fields);
    assert forall|text: Seq<char>| names_in(left).contains(text) implies names.contains(text) by {
        let k = choose|k: int|
            0 <= k < left.map_values(name).len() && left.map_values(name)[k] == text;
        assert(fields.contains(left[k]));
        let i = choose|i: int| 0 <= i < fields.len() && fields[i] == left[k];
        assert(header_fields(headers)[i].0 == text);
    }
    vstd::set_lib::lemma_len_subset(names_in(left), names);
}

/// A request that cannot be rebuilt is answered with the status 500.
pub proof fn rebuild_failures_are_answered()
    ensures
        rebuild_failure().status == 500,
        rebuild_failure().content_type == "application/json"@,
        rebuild_failure().body == "{\"error\": \""@ + "Failed to build request"@ + "\"}"@,
{
}

} // verus!
