//! Starting a service, waiting until it is healthy, stopping it, and stopping it
//! when it is idle. Each function here takes an event and answers with what is to
//! be done next; whoever runs it does that and comes back with the next event.

use vstd::prelude::*;
use vstd::string::*;

use crate::clock::{
    deadline, seconds_and_deadlines_agree, time_left, Moment, NANOS_PER_SECOND,
};
use crate::config::ServerConfig;
use crate::message::{is_uri, uri_accepted};
use crate::server::{ManagedServer, ServerState};
use crate::shell::{shell_words, texts, words_of};
use crate::text::{decimal, decimal_string};

verus! {

/// How a command ended: whether with success, and its exit status in words.
#[derive(Debug)]
pub struct CommandExit {
    pub success: bool,
    pub status: String,
}

/// What happened on the way to a running service.
#[derive(Debug)]
pub enum StartEvent {
    /// The service is to be started.
    Requested,
    /// The program has been spawned, or could not be.
    SpawnEnded { spawned: Result<(), String>, now: Moment },
    /// The start command has ended, or could not be run.
    CommandEnded { exit: Result<CommandExit, String>, now: Moment },
    /// A health check has been answered with a status, or not at all.
    Probed { since: Moment, status: Option<u16>, now: Moment },
    /// The pause before the next health check is over.
    Slept { since: Moment, now: Moment },
}

/// What is to be done next on the way to a running service.
#[derive(Debug)]
pub enum StartAction {
    /// Spawn the program as a child process.
    Spawn { program: String, args: Vec<String> },
    /// Have a shell run the script, and wait for its end.
    RunCommand { script: String },
    /// Check the health of the service, which has been awaited since `since`, and
    /// wait for the answer for so many nanoseconds at most.
    Probe { url: String, since: Moment, nanos: u128 },
    /// Wait for so many nanoseconds before the next health check.
    Sleep { nanos: u128, since: Moment },
    /// The address of the health check is no URI.
    BadHealthUrl { url: String },
    /// The service is healthy, or has not started.
    Finished { result: Result<(), String> },
}

/// The contents of a [`StartAction`].
#[verifier::ext_equal]
pub enum StartStep {
    Spawn { program: Seq<char>, args: Seq<Seq<char>> },
    RunCommand { script: Seq<char> },
    Probe { url: Seq<char>, since: Moment, nanos: nat },
    Sleep { nanos: nat, since: Moment },
    BadHealthUrl { url: Seq<char> },
    Finished { result: Result<(), Seq<char>> },
}

/// The contents of a result whose error is a text.
pub open spec fn text_result(result: Result<(), String>) -> Result<(), Seq<char>> {
    match result {
        Ok(()) => Ok(()),
        Err(message) => Err(message@),
    }
}

impl View for StartAction {
    type V = StartStep;

    open spec fn view(&self) -> StartStep {
        match *self {
            StartAction::Spawn { program, args } => StartStep::Spawn {
                program: program@,
                args: texts(args@),
            },
            StartAction::RunCommand { script } => StartStep::RunCommand { script: script@ },
            StartAction::Probe { url, since, nanos } => StartStep::Probe {
                url: url@,
                since,
                nanos: nanos as nat,
            },
            StartAction::Sleep { nanos, since } => StartStep::Sleep { nanos: nanos as nat, since },
            StartAction::BadHealthUrl { url } => StartStep::BadHealthUrl { url: url@ },
            StartAction::Finished { result } => StartStep::Finished {
                result: text_result(result),
            },
        }
    }
}

/// A start that has failed.
pub open spec fn start_failed(message: Seq<char>) -> StartStep {
    StartStep::Finished { result: Err(message) }
}

/// What starts a service: its program with its arguments where the service is a
/// child process, else its start command.
pub open spec fn launch_step(config: ServerConfig) -> StartStep {
    if !config.managed() {
        StartStep::RunCommand { script: config.start@ }
    } else if words_of(config.start@).len() == 0 {
        start_failed("Empty start command"@)
    } else {
        StartStep::Spawn {
            program: words_of(config.start@)[0],
            args: words_of(config.start@).drop_first(),
        }
    }
}

/// The moment until which a service that is awaited since `since` has to be healthy.
pub open spec fn health_deadline(config: ServerConfig, since: Moment) -> nat {
    deadline(since@, config.startup_timeout)
}

/// The health check at the address `url`, which is one where `accepted` says so,
/// with `nanos` nanoseconds for the answer.
pub open spec fn probe_at(url: Seq<char>, accepted: bool, since: Moment, nanos: nat) -> StartStep {
    if accepted {
        StartStep::Probe { url, since, nanos }
    } else {
        StartStep::BadHealthUrl { url }
    }
}

/// The health check, at the moment `now`, of a service that has been awaited since
/// `since`: the answer has the time that is left.
pub open spec fn probe_step(config: ServerConfig, since: Moment, now: Moment) -> StartStep {
    let url = config.url(config.health@);
    probe_at(url, uri_accepted(url), since, time_left(now@, health_deadline(config, since)))
}

/// Whether a health check with this answer is passed.
pub open spec fn is_healthy(status: Option<u16>) -> bool {
    status matches Some(code) && 200 <= code < 300
}

/// What is said of a service that does not become healthy in time.
pub open spec fn health_timeout_message(config: ServerConfig) -> Seq<char> {
    "Health check timed out after "@ + decimal(config.startup_timeout as nat) + "s for '"@
        + config.name@ + "'"@
}

/// The nanoseconds between a health check that has failed at the moment `now` and
/// the next one: the poll interval, but no more than the time that is left.
pub open spec fn pause(config: ServerConfig, since: Moment, now: Moment) -> nat {
    let interval = (config.startup_poll_interval * NANOS_PER_SECOND) as nat;
    let left = time_left(now@, health_deadline(config, since));
    if interval <= left {
        interval
    } else {
        left
    }
}

/// What follows a health check: the end of the start where it is passed, or where
/// the time for it is over, and a pause before the next one otherwise.
pub open spec fn health_step(
    config: ServerConfig,
    since: Moment,
    status: Option<u16>,
    now: Moment,
) -> StartStep {
    if is_healthy(status) {
        StartStep::Finished { result: Ok(()) }
    } else if now@ >= health_deadline(config, since) {
        start_failed(health_timeout_message(config))
    } else {
        StartStep::Sleep { nanos: pause(config, since, now), since }
    }
}

/// What is said of a program that cannot be spawned.
pub open spec fn spawn_failure_message(config: ServerConfig, error: Seq<char>) -> Seq<char> {
    "Failed to spawn '"@ + config.start@ + "': "@ + error
}

/// What is said of a start command that fails.
pub open spec fn command_failure_message(config: ServerConfig, status: Seq<char>) -> Seq<char> {
    "Start command exited with status "@ + status + " for '"@ + config.name@ + "'"@
}

/// The service and the next thing to do after an event of its start.
pub open spec fn start_step(server: ManagedServer, event: StartEvent) -> (ManagedServer, StartStep) {
    let config = server.config;
    match event {
        StartEvent::Requested => (server, launch_step(config)),
        StartEvent::SpawnEnded { spawned, now } => match spawned {
            Ok(()) => (ManagedServer { has_child: true, ..server }, probe_step(config, now, now)),
            Err(error) => (server, start_failed(spawn_failure_message(config, error@))),
        },
        StartEvent::CommandEnded { exit, now } => match exit {
            Ok(exit) => if exit.success {
                (server, probe_step(config, now, now))
            } else {
                (server, start_failed(command_failure_message(config, exit.status@)))
            },
            Err(error) => (server, start_failed("Failed to run start command: "@ + error@)),
        },
        StartEvent::Probed { since, status, now } => (
            server,
            health_step(config, since, status, now),
        ),
        StartEvent::Slept { since, now } => (server, probe_step(config, since, now)),
    }
}

/// The program and the arguments of a service that runs as a child process.
fn start_managed_subprocess(config: &ServerConfig) -> (action: StartAction)
    requires
        config.managed(),
    ensures
        action@ == launch_step(*config),
{
    let mut parts = shell_words(config.start.as_str());
    assert(texts(parts@).len() == parts@.len());
    if parts.len() == 0 {
        return StartAction::Finished { result: Err("Empty start command".to_owned()) };
    }
    let ghost all = parts@;
    let program = parts.remove(0);
    assert(texts(all)[0] == program@);
    assert(texts(parts@) =~= texts(all).drop_first());
    StartAction::Spawn { program, args: parts }
}

/// The health check at the address `url`, which is one where `accepted` says so,
/// with `nanos` nanoseconds for the answer.
pub fn probe_url(url: String, accepted: bool, since: Moment, nanos: u128) -> (action: StartAction)
    ensures
        action@ == probe_at(url@, accepted, since, nanos as nat),
{
    if accepted {
        StartAction::Probe { url, since, nanos }
    } else {
        StartAction::BadHealthUrl { url }
    }
}

/// The health check, at the moment `now`, of a service that has been awaited since
/// `since`: the answer has the time that is left.
pub fn probe(config: &ServerConfig, since: Moment, now: Moment) -> (action: StartAction)
    ensures
        action@ == probe_step(*config, since, now),
{
    let url = config.backend_url(config.health.as_str());
    let accepted = is_uri(url.as_str());
    probe_url(url, accepted, since, now.nanos_until(&since, config.startup_timeout))
}

/// Decides what follows a health check of a service that has been awaited since
/// `since`: it was answered with `status`, or not at all, at the moment `now`. The
/// service is awaited for its startup timeout at most, so that a pause that would
/// last longer ends with it.
pub fn wait_for_health(
    config: &ServerConfig,
    since: Moment,
    status: Option<u16>,
    now: Moment,
) -> (action: StartAction)
    ensures
        action@ == health_step(*config, since, status, now),
{
    let healthy = match status {
        Some(code) => 200 <= code && code < 300,
        None => false,
    };
    if healthy {
        StartAction::Finished { result: Ok(()) }
    } else if now.has_reached(&since, config.startup_timeout) {
        let mut message = "Health check timed out after ".to_owned();
        message.append(decimal_string(config.startup_timeout).as_str());
        message.append("s for '");
        message.append(config.name.as_str());
        message.append("'");
        StartAction::Finished { result: Err(message) }
    } else {
        let interval: u128 = config.startup_poll_interval as u128 * NANOS_PER_SECOND;
        let left: u128 = now.nanos_until(&since, config.startup_timeout);
        let nanos: u128 = if interval <= left {
            interval
        } else {
            left
        };
        StartAction::Sleep { nanos, since }
    }
}

/// Starts the service: launches it, and then checks its health until a check is
/// passed or the time for it is over.
pub fn start_backend(server: &mut ManagedServer, event: StartEvent) -> (action: StartAction)
    ensures
        (*final(server), action@) == start_step(*old(server), event),
{
    match event {
        StartEvent::Requested => {
            if server.config.is_managed_subprocess() {
                start_managed_subprocess(&server.config)
            } else {
                StartAction::RunCommand { script: server.config.start.clone() }
            }
        },
        StartEvent::SpawnEnded { spawned, now } => match spawned {
            Ok(()) => {
                server.has_child = true;
                probe(&server.config, now, now)
            },
            Err(error) => {
                let mut message = "Failed to spawn '".to_owned();
                message.append(server.config.start.as_str());
                message.append("': ");
                message.append(error.as_str());
                StartAction::Finished { result: Err(message) }
            },
        },
        StartEvent::CommandEnded { exit, now } => match exit {
            Ok(exit) => {
                if exit.success {
                    probe(&server.config, now, now)
                } else {
                    let mut message = "Start command exited with status ".to_owned();
                    message.append(exit.status.as_str());
                    message.append(" for '");
                    message.append(server.config.name.as_str());
                    message.append("'");
                    StartAction::Finished { result: Err(message) }
                }
            },
            Err(error) => {
                let mut message = "Failed to run start command: ".to_owned();
                message.append(error.as_str());
                StartAction::Finished { result: Err(message) }
            },
        },
        StartEvent::Probed { since, status, now } => {
            wait_for_health(&server.config, since, status, now)
        },
        StartEvent::Slept { since, now } => probe(&server.config, since, now),
    }
}

/// The seconds that a child process has to end after it has been asked to.
pub const STOP_GRACE_SECONDS: u64 = 10;

/// What happened on the way to a stopped service.
#[derive(Debug)]
pub enum StopEvent {
    /// The service is to be stopped. `pid` is the id of its child process, which
    /// is gone once the end of the process has been noticed; `can_ask` says
    /// whether the system can ask a process to end.
    Requested { pid: Option<u32>, can_ask: bool },
    /// The child process has ended in time after it was asked to, or has not.
    GraceEnded { exited: bool },
    /// The child process has been killed.
    Killed,
    /// The end of the child process has been awaited.
    Reaped,
    /// The stop command has ended, or could not be run.
    CommandEnded { exit: Result<CommandExit, String> },
}

/// What is to be done next on the way to a stopped service.
#[derive(Debug)]
pub enum StopAction {
    /// Ask the process to end, and wait for its end for so many seconds.
    Terminate { pid: u32, grace_seconds: u64 },
    /// Kill the child process.
    Kill,
    /// Wait for the end of the child process.
    Reap,
    /// Have a shell run the script, and wait for its end.
    RunCommand { script: String },
    /// The service is stopped, or its stop command could not be run.
    Finished { result: Result<(), String> },
}

/// The contents of a [`StopAction`].
#[verifier::ext_equal]
pub enum StopStep {
    Terminate { pid: u32, grace_seconds: u64 },
    Kill,
    Reap,
    RunCommand { script: Seq<char> },
    Finished { result: Result<(), Seq<char>> },
}

impl View for StopAction {
    type V = StopStep;

    open spec fn view(&self) -> StopStep {
        match *self {
            StopAction::Terminate { pid, grace_seconds } => StopStep::Terminate {
                pid,
                grace_seconds,
            },
            StopAction::Kill => StopStep::Kill,
            StopAction::Reap => StopStep::Reap,
            StopAction::RunCommand { script } => StopStep::RunCommand { script: script@ },
            StopAction::Finished { result } => StopStep::Finished { result: text_result(result) },
        }
    }
}

/// The first thing to do to end a child process.
pub open spec fn end_child_step(has_child: bool, pid: Option<u32>, can_ask: bool) -> StopStep {
    if !has_child {
        StopStep::Finished { result: Ok(()) }
    } else if !can_ask {
        StopStep::Kill
    } else {
        match pid {
            Some(pid) => StopStep::Terminate { pid, grace_seconds: STOP_GRACE_SECONDS },
            None => StopStep::Reap,
        }
    }
}

/// The service and the next thing to do after an event of its stop.
pub open spec fn stop_step(server: ManagedServer, event: StopEvent) -> (ManagedServer, StopStep) {
    match event {
        StopEvent::Requested { pid, can_ask } => (
            server,
            if server.config.managed() {
                end_child_step(server.has_child, pid, can_ask)
            } else {
                StopStep::RunCommand { script: server.config.stop@ }
            },
        ),
        StopEvent::GraceEnded { exited } => (
            server,
            if exited {
                StopStep::Reap
            } else {
                StopStep::Kill
            },
        ),
        StopEvent::Killed => (server, StopStep::Reap),
        StopEvent::Reaped => (
            ManagedServer { has_child: false, ..server },
            StopStep::Finished { result: Ok(()) },
        ),
        StopEvent::CommandEnded { exit } => (
            server,
            StopStep::Finished {
                result: match exit {
                    Ok(_) => Ok(()),
                    Err(error) => Err("Failed to run stop command: "@ + error@),
                },
            },
        ),
    }
}

/// The first thing to do to end the child process of a service: nothing where it
/// has none, else to ask it to end where that is possible.
pub fn stop_managed_subprocess(has_child: bool, pid: Option<u32>, can_ask: bool) -> (action:
    StopAction)
    ensures
        action@ == end_child_step(has_child, pid, can_ask),
{
    if !has_child {
        StopAction::Finished { result: Ok(()) }
    } else if !can_ask {
        StopAction::Kill
    } else {
        match pid {
            Some(pid) => StopAction::Terminate { pid, grace_seconds: STOP_GRACE_SECONDS },
            None => StopAction::Reap,
        }
    }
}

/// Stops the service: a child process is asked to end, and killed where it has
/// not ended in time; any other service is stopped by its stop command, whatever
/// the status with which the command ends.
pub fn stop_backend(server: &mut ManagedServer, event: StopEvent) -> (action: StopAction)
    ensures
        (*final(server), action@) == stop_step(*old(server), event),
{
    match event {
        StopEvent::Requested { pid, can_ask } => {
            if server.config.is_managed_subprocess() {
                stop_managed_subprocess(server.has_child, pid, can_ask)
            } else {
                StopAction::RunCommand { script: server.config.stop.clone() }
            }
        },
        StopEvent::GraceEnded { exited } => if exited {
            StopAction::Reap
        } else {
            StopAction::Kill
        },
        StopEvent::Killed => StopAction::Reap,
        StopEvent::Reaped => {
            server.has_child = false;
            StopAction::Finished { result: Ok(()) }
        },
        StopEvent::CommandEnded { exit } => match exit {
            Ok(_) => StopAction::Finished { result: Ok(()) },
            Err(error) => {
                let mut message = "Failed to run stop command: ".to_owned();
                message.append(error.as_str());
                StopAction::Finished { result: Err(message) }
            },
        },
    }
}

/// The seconds between two looks at whether a service is idle.
pub const IDLE_CHECK_SECONDS: u64 = 10;

/// What the idle monitor of a service meets.
#[derive(Debug)]
pub enum IdleEvent {
    /// It is time to look at the service.
    Tick { now: Moment },
    /// The service has been stopped, or could not be.
    StopEnded { result: Result<(), String> },
}

/// What the idle monitor of a service does next.
#[derive(Debug, Clone, Copy, PartialEq, Eq, Structural)]
pub enum IdleAction {
    /// Wait until it is time for the next look.
    Wait,
    /// Stop the service.
    Stop,
    /// Wake the requests that wait for the stop, and wait for the next look.
    WakeStopWaiters,
}

/// Whether a service is to be stopped for want of requests.
pub open spec fn is_idle(server: ManagedServer, now: nat) -> bool {
    server.state == ServerState::Running && server.idle(now) >= server.config.idle_timeout
}

/// The service and what its idle monitor does after an event.
pub open spec fn idle_step(server: ManagedServer, event: IdleEvent) -> (ManagedServer, IdleAction) {
    match event {
        IdleEvent::Tick { now } => if is_idle(server, now@) {
            (ManagedServer { state: ServerState::Stopping, ..server }, IdleAction::Stop)
        } else {
            (server, IdleAction::Wait)
        },
        IdleEvent::StopEnded { result } => (
            ManagedServer { state: ServerState::Stopped, ..server },
            IdleAction::WakeStopWaiters,
        ),
    }
}

/// Watches over a running service: once it has been without a request for its
/// idle timeout it is stopped, and it counts as stopped however that went.
pub fn idle_monitor(server: &mut ManagedServer, event: IdleEvent) -> (action: IdleAction)
    ensures
        (*final(server), action) == idle_step(*old(server), event),
{
    match event {
        IdleEvent::Tick { now } => {
            if server.get_state() != ServerState::Running {
                return IdleAction::Wait;
            }
            let idle: u64 = server.idle_seconds(now);
            if idle >= server.config.idle_timeout {
                server.set_state(ServerState::Stopping);
                IdleAction::Stop
            } else {
                IdleAction::Wait
            }
        },
        IdleEvent::StopEnded { result: _ } => {
            server.set_state(ServerState::Stopped);
            IdleAction::WakeStopWaiters
        },
    }
}

/// Whether an event is an answer to what was to be done next in a start.
pub open spec fn answers_start(step: StartStep, event: StartEvent) -> bool {
    match step {
        StartStep::Spawn { .. } => event is SpawnEnded,
        StartStep::RunCommand { .. } => event is CommandEnded,
        StartStep::Probe { since, .. } => event matches StartEvent::Probed { since: s, .. } && s
            == since,
        StartStep::Sleep { since, .. } => event matches StartEvent::Slept { since: s, .. } && s
            == since,
        StartStep::BadHealthUrl { .. } => false,
        StartStep::Finished { .. } => false,
    }
}

/// Whether the events are those of one start of the service, from the beginning.
pub open spec fn is_start_run(server: ManagedServer, run: Seq<StartEvent>) -> bool {
    &&& run.len() > 0
    &&& run[0] is Requested
    &&& forall|i: int|
        0 < i < run.len() ==> answers_start(
            start_step(server, run[i - 1]).1,
            #[trigger] run[i],
        )
}

/// The moment at which the launch of a start had ended.
pub open spec fn launch_moment(run: Seq<StartEvent>) -> Option<Moment> {
    match run[1] {
        StartEvent::SpawnEnded { now, .. } => Some(now),
        StartEvent::CommandEnded { now, .. } => Some(now),
        _ => None,
    }
}

/// A start changes nothing of a service but its child process, and that only when
/// one has been spawned.
pub proof fn start_changes_only_the_child(server: ManagedServer, event: StartEvent)
    ensures
        start_step(server, event).0 == (ManagedServer {
            has_child: start_step(server, event).0.has_child,
            ..server
        }),
        !(event is SpawnEnded) ==> start_step(server, event).0 == server,
{
}

/// All health checks of one start count their time from the end of the launch.
pub proof fn health_checks_count_from_the_launch(
    server: ManagedServer,
    run: Seq<StartEvent>,
    i: int,
)
    requires
        is_start_run(server, run),
        2 <= i < run.len(),
    ensures
        match run[i] {
            StartEvent::Probed { since, .. } => launch_moment(run) == Some(since),
            StartEvent::Slept { since, .. } => launch_moment(run) == Some(since),
            _ => false,
        },
    decreases i,
{
    assert(answers_start(start_step(server, run[i - 1]).1, run[i]));
    assert(answers_start(start_step(server, run[0]).1, run[1]));
    if i > 2 {
        health_checks_count_from_the_launch(server, run, i - 1);
    }
}

/// The moment of an event of a start; the request for it has none.
pub open spec fn moment_of(event: StartEvent) -> Option<Moment> {
    match event {
        StartEvent::Requested => None,
        StartEvent::SpawnEnded { now, .. } => Some(now),
        StartEvent::CommandEnded { now, .. } => Some(now),
        StartEvent::Probed { now, .. } => Some(now),
        StartEvent::Slept { now, .. } => Some(now),
    }
}

/// The nanoseconds that the next thing to do takes, where that is limited.
pub open spec fn allotted(step: StartStep) -> Option<nat> {
    match step {
        StartStep::Probe { nanos, .. } => Some(nanos),
        StartStep::Sleep { nanos, .. } => Some(nanos),
        _ => None,
    }
}

/// A start is given up for want of health only when, since the end of the launch,
/// the startup timeout has gone by; and the first failed check from then on ends
/// it.
pub proof fn only_the_deadline_ends_the_wait(server: ManagedServer, run: Seq<StartEvent>, i: int)
    requires
        is_start_run(server, run),
        2 <= i < run.len(),
        run[i] is Probed,
        !is_healthy(run[i]->status),
    ensures
        start_step(server, run[i]).1 == start_failed(health_timeout_message(server.config))
            <==> run[i]->Probed_now@ >= health_deadline(server.config, launch_moment(run)->0),
        start_step(server, run[i]).1 is Finished <==> run[i]->Probed_now@ >= health_deadline(
            server.config,
            launch_moment(run)->0,
        ),
{
    health_checks_count_from_the_launch(server, run, i);
}

/// No pause of a start reaches past its deadline, the startup timeout after the end
/// of the launch. No check is given time past it either, and none at all where it
/// is made later.
pub proof fn nothing_reaches_past_the_deadline(server: ManagedServer, run: Seq<StartEvent>, i: int)
    requires
        is_start_run(server, run),
        1 <= i < run.len(),
    ensures
        ({
            let now = moment_of(run[i])->0@;
            let end = health_deadline(server.config, launch_moment(run)->0);
            match start_step(server, run[i]).1 {
                StartStep::Sleep { nanos, .. } => now + nanos <= end,
                StartStep::Probe { nanos, .. } => nanos > 0 ==> now + nanos <= end,
                _ => true,
            }
        }),
{
    assert(answers_start(start_step(server, run[0]).1, run[1]));
    if i >= 2 {
        health_checks_count_from_the_launch(server, run, i);
    }
}

/// Whether the pause or check between two events of a start is over at most `late`
/// nanoseconds after the time that it was given.
pub open spec fn in_time(
    server: ManagedServer,
    before: StartEvent,
    after: StartEvent,
    late: nat,
) -> bool {
    allotted(start_step(server, before).1) matches Some(nanos) ==> moment_of(after)->0@
        <= moment_of(before)->0@ + nanos + late
}

/// Whether each pause and each check of a start is over at most `late` nanoseconds
/// after the time that it was given.
pub open spec fn keeps_time(server: ManagedServer, run: Seq<StartEvent>, late: nat) -> bool {
    forall|i: int| 2 <= i < run.len() ==> #[trigger] in_time(server, run[i - 1], run[i], late)
}

/// The startup timeout is the longest that a service is awaited: where each pause
/// and each check is over in the time that it was given, nothing of a start happens
/// later than the startup timeout after the end of the launch. Delays of up to
/// `late` nanoseconds do not add up: they count twice at most, for the last pause
/// and for the last check.
pub proof fn a_start_ends_in_time(
    server: ManagedServer,
    run: Seq<StartEvent>,
    late: nat,
    i: int,
)
    requires
        is_start_run(server, run),
        keeps_time(server, run, late),
        1 <= i < run.len(),
    ensures
        moment_of(run[i])->0@ <= health_deadline(server.config, launch_moment(run)->0) + 2 * late,
{
    assert(answers_start(start_step(server, run[0]).1, run[1]));
    if i >= 2 {
        nothing_reaches_past_the_deadline(server, run, i - 1);
        assert(answers_start(start_step(server, run[i - 1]).1, run[i]));
        assert(in_time(server, run[i - 1], run[i], late));
        if run[i] is Probed && i >= 3 {
            assert(in_time(server, run[i - 2], run[i - 1], late));
            health_checks_count_from_the_launch(server, run, i - 1);
            assert(answers_start(start_step(server, run[i - 2]).1, run[i - 1]));
            nothing_reaches_past_the_deadline(server, run, i - 2);
        }
    }
}

/// Whether a pause between two events of a start is not cut short, and a check not
/// answered before it is made.
pub open spec fn not_early(server: ManagedServer, before: StartEvent, after: StartEvent) -> bool {
    match start_step(server, before).1 {
        StartStep::Sleep { nanos, .. } => moment_of(after)->0@ >= moment_of(before)->0@ + nanos,
        _ => moment_of(after)->0@ >= moment_of(before)->0@,
    }
}

/// Whether no pause of a start is cut short, and no check is answered before it is
/// made.
pub open spec fn takes_its_time(server: ManagedServer, run: Seq<StartEvent>) -> bool {
    forall|i: int| 2 <= i < run.len() ==> #[trigger] not_early(server, run[i - 1], run[i])
}

/// The `j`-th pause of a start has lasted until `j` poll intervals after the
/// launch, or until the deadline.
proof fn lemma_pauses(server: ManagedServer, run: Seq<StartEvent>, j: int)
    requires
        is_start_run(server, run),
        takes_its_time(server, run),
        0 <= j,
        2 * j + 1 < run.len(),
    ensures
        ({
            let launch = launch_moment(run)->0;
            let now = moment_of(run[2 * j + 1])->0@;
            ||| now >= health_deadline(server.config, launch)
            ||| now >= launch@ + j * server.config.startup_poll_interval * NANOS_PER_SECOND
        }),
        j > 0 ==> run[2 * j + 1] is Slept,
    decreases j,
{
    let interval = server.config.startup_poll_interval;
    assert(answers_start(start_step(server, run[0]).1, run[1]));
    if j > 0 {
        let last = j - 1;
        let i = 2 * j + 1;
        lemma_pauses(server, run, last);
        assert(2 * last + 1 == i - 2);
        assert(answers_start(start_step(server, run[i - 2]).1, run[i - 1]));
        assert(answers_start(start_step(server, run[i - 1]).1, run[i]));
        assert(not_early(server, run[i - 2], run[i - 1]));
        assert(not_early(server, run[i - 1], run[i]));
        health_checks_count_from_the_launch(server, run, i);
        health_checks_count_from_the_launch(server, run, i - 1);
        assert(j * interval * NANOS_PER_SECOND == last * interval * NANOS_PER_SECOND + interval
            * NANOS_PER_SECOND) by (nonlinear_arith)
            requires
                last == j - 1,
        ;
    } else {
        assert(0 * interval * NANOS_PER_SECOND == 0);
    }
}

/// Every start ends: where pauses take their time, and `pauses` of them make up the
/// startup timeout, it is over with the health check after the last of these at the
/// latest.
pub proof fn a_start_ends(server: ManagedServer, run: Seq<StartEvent>, pauses: nat)
    requires
        is_start_run(server, run),
        takes_its_time(server, run),
        pauses * server.config.startup_poll_interval >= server.config.startup_timeout,
    ensures
        run.len() <= 2 * pauses + 3,
{
    if run.len() > 2 * pauses + 3 {
        let i = (2 * pauses + 3) as int;
        lemma_pauses(server, run, pauses as int);
        assert(not_early(server, run[i - 2], run[i - 1]));
        assert(answers_start(start_step(server, run[0]).1, run[1]));
        assert(answers_start(start_step(server, run[i - 2]).1, run[i - 1]));
        assert(answers_start(start_step(server, run[i - 1]).1, run[i]));
        health_checks_count_from_the_launch(server, run, i - 1);
        assert(pauses * server.config.startup_poll_interval * NANOS_PER_SECOND
            >= server.config.startup_timeout * NANOS_PER_SECOND);
    }
}

/// A start ends well only with a health check that is passed.
pub proof fn started_means_healthy(server: ManagedServer, event: StartEvent)
    ensures
        start_step(server, event).1 == (StartStep::Finished { result: Ok(()) }) <==> (
        event matches StartEvent::Probed { status, .. } && is_healthy(status)),
{
}

/// How far an event is from the end of a stop.
pub open spec fn stop_rank(event: StopEvent) -> nat {
    match event {
        StopEvent::Requested { .. } => 4,
        StopEvent::GraceEnded { .. } => 3,
        StopEvent::Killed => 2,
        StopEvent::Reaped => 1,
        StopEvent::CommandEnded { .. } => 0,
    }
}

/// The service at the end of a stop that goes on with `event`, and how the stop
/// ended. `exited` says whether a child process ends in time when it is asked to,
/// and `exit` how the stop command ends.
pub open spec fn stop_run(
    server: ManagedServer,
    event: StopEvent,
    exited: bool,
    exit: Result<CommandExit, String>,
) -> (ManagedServer, Result<(), Seq<char>>)
    decreases stop_rank(event),
{
    let (next, step) = stop_step(server, event);
    match step {
        StopStep::Terminate { .. } => stop_run(next, StopEvent::GraceEnded { exited }, exited, exit),
        StopStep::Kill => stop_run(next, StopEvent::Killed, exited, exit),
        StopStep::Reap => stop_run(next, StopEvent::Reaped, exited, exit),
        StopStep::RunCommand { .. } => stop_run(
            next,
            StopEvent::CommandEnded { exit },
            exited,
            exit,
        ),
        StopStep::Finished { result } => (next, result),
    }
}

/// A service that runs as a child process has none after it has been stopped,
/// whether the process ends when it is asked to or not, and the stop ends well.
/// Nothing else of the service changes.
pub proof fn stop_leaves_no_child(
    server: ManagedServer,
    pid: Option<u32>,
    can_ask: bool,
    exited: bool,
    exit: Result<CommandExit, String>,
)
    requires
        server.config.managed(),
    ensures
        stop_run(server, StopEvent::Requested { pid, can_ask }, exited, exit) == (
            ManagedServer { has_child: false, ..server },
            Ok::<(), Seq<char>>(()),
        ),
{
    reveal_with_fuel(stop_run, 5);
}

/// Stopping a service that runs as a child process, but has none, ends well at once:
/// no process is asked to end or killed, none is waited for, and the service stays
/// as it is.
pub proof fn without_a_child_nothing_is_stopped(
    server: ManagedServer,
    pid: Option<u32>,
    can_ask: bool,
)
    requires
        server.config.managed(),
        !server.has_child,
    ensures
        stop_step(server, StopEvent::Requested { pid, can_ask }) == (
            server,
            StopStep::Finished { result: Ok(()) },
        ),
{
}

/// Stopping a service that runs as a child process twice is the same as stopping it
/// once: the second stop ends well at once and changes nothing.
pub proof fn stopping_twice_is_stopping_once(
    server: ManagedServer,
    first: StopEvent,
    second: StopEvent,
    exited: bool,
    exit: Result<CommandExit, String>,
)
    requires
        server.config.managed(),
        first is Requested,
        second is Requested,
    ensures
        ({
            let (stopped, _) = stop_run(server, first, exited, exit);
            &&& stop_step(stopped, second) == (stopped, StopStep::Finished { result: Ok(()) })
            &&& stop_run(stopped, second, exited, exit) == stop_run(server, first, exited, exit)
        }),
{
    stop_leaves_no_child(server, first->pid, first->can_ask, exited, exit);
    let (stopped, _) = stop_run(server, first, exited, exit);
    without_a_child_nothing_is_stopped(stopped, second->pid, second->can_ask);
}

/// The stop of a service with a stop command leaves what is known of it as it is,
/// and ends well exactly where the command could be run.
pub proof fn stop_command_decides(
    server: ManagedServer,
    pid: Option<u32>,
    can_ask: bool,
    exited: bool,
    exit: Result<CommandExit, String>,
)
    requires
        !server.config.managed(),
    ensures
        stop_run(server, StopEvent::Requested { pid, can_ask }, exited, exit).0 == server,
        stop_run(server, StopEvent::Requested { pid, can_ask }, exited, exit).1 is Ok <==> exit
            is Ok,
{
    reveal_with_fuel(stop_run, 3);
}

/// A child process is killed only where it has been asked to end and has not
/// ended in time, or cannot be asked.
pub proof fn kill_is_the_last_resort(server: ManagedServer, event: StopEvent)
    ensures
        stop_step(server, event).1 is Kill ==> {
            ||| event == (StopEvent::GraceEnded { exited: false })
            ||| event matches StopEvent::Requested { can_ask, .. } && !can_ask
        },
{
}

/// A child process that still runs is asked to end first, where it can be asked.
pub proof fn a_child_is_asked_first(server: ManagedServer, pid: u32)
    requires
        server.config.managed(),
        server.has_child,
    ensures
        stop_step(server, StopEvent::Requested { pid: Some(pid), can_ask: true }).1 == (
        StopStep::Terminate { pid, grace_seconds: STOP_GRACE_SECONDS }),
{
}

/// A service is stopped for want of requests exactly where it runs and its last
/// request is at least its idle timeout ago.
pub proof fn idle_services_are_stopped(server: ManagedServer, now: Moment)
    requires
        server.last_request@ <= now@,
    ensures
        idle_step(server, IdleEvent::Tick { now }).1 == IdleAction::Stop <==> {
            &&& server.state == ServerState::Running
            &&& now@ >= deadline(server.last_request@, server.config.idle_timeout)
        },
        !(idle_step(server, IdleEvent::Tick { now }).1 == IdleAction::Stop) ==> idle_step(
            server,
            IdleEvent::Tick { now },
        ).0 == server,
{
    seconds_and_deadlines_agree(server.last_request@, now@, server.config.idle_timeout);
}

/// A service is not stopped for want of requests before its idle timeout has gone
/// by since a request at the moment `request`.
pub proof fn a_request_keeps_a_service_running(
    server: ManagedServer,
    request: Moment,
    now: Moment,
)
    requires
        request@ <= now@,
        now@ < deadline(request@, server.config.idle_timeout),
    ensures
        ({
            let used = ManagedServer { last_request: request, ..server };
            idle_step(used, IdleEvent::Tick { now }) == (used, IdleAction::Wait)
        }),
{
    seconds_and_deadlines_agree(request@, now@, server.config.idle_timeout);
}

/// What is seen of the next thing to do in a start is all there is to it.
pub proof fn start_actions_are_seen_whole(action: StartAction)
    ensures
        match action {
            StartAction::Spawn { program, args } => {
                &&& action@ matches StartStep::Spawn { program: p, args: a }
                &&& p == program@
                &&& a.len() == args@.len()
                &&& forall|i: int| 0 <= i < a.len() ==> #[trigger] a[i] == args@[i]@
            },
            StartAction::RunCommand { script } => action@ == (StartStep::RunCommand {
                script: script@,
            }),
            StartAction::Probe { url, since, nanos } => action@ == (StartStep::Probe {
                url: url@,
                since,
                nanos: nanos as nat,
            }),
            StartAction::Sleep { nanos, since } => action@ == (StartStep::Sleep {
                nanos: nanos as nat,
                since,
            }),
            StartAction::BadHealthUrl { url } => action@ == (StartStep::BadHealthUrl { url: url@ }),
            StartAction::Finished { result } => match result {
                Ok(()) => action@ == (StartStep::Finished { result: Ok(()) }),
                Err(message) => action@ == (StartStep::Finished { result: Err(message@) }),
            },
        },
{
}

/// What is seen of the next thing to do in a stop is all there is to it.
pub proof fn stop_actions_are_seen_whole(action: StopAction)
    ensures
        match action {
            StopAction::Terminate { pid, grace_seconds } => action@ == (StopStep::Terminate {
                pid,
                grace_seconds,
            }),
            StopAction::Kill => action@ is Kill,
            StopAction::Reap => action@ is Reap,
            StopAction::RunCommand { script } => action@ == (StopStep::RunCommand {
                script: script@,
            }),
            StopAction::Finished { result } => match result {
                Ok(()) => action@ == (StopStep::Finished { result: Ok(()) }),
                Err(message) => action@ == (StopStep::Finished { result: Err(message@) }),
            },
        },
{
}

/// A start begins with the start command of the service, the whole of it, in
/// whatever state the service is. One that runs as a child process is spawned: the
/// words of the command are its program and its arguments, and without a word the
/// start fails.
pub proof fn a_start_begins_with_the_start_command(server: ManagedServer)
    ensures
        start_step(server, StartEvent::Requested).0 == server,
        server.config.stop@ != "managed-subprocess"@ ==> start_step(
            server,
            StartEvent::Requested,
        ).1 == (StartStep::RunCommand { script: server.config.start@ }),
        server.config.stop@ == "managed-subprocess"@ ==> {
            let words = words_of(server.config.start@);
            match start_step(server, StartEvent::Requested).1 {
                StartStep::Spawn { program, args } => words == seq![program] + args,
                StartStep::Finished { result } => words.len() == 0 && result == Err::<
                    (),
                    Seq<char>,
                >("Empty start command"@),
                _ => false,
            }
        },
{
    let words = words_of(server.config.start@);
    if words.len() > 0 {
        assert(words =~= seq![words[0]] + words.drop_first());
    }
}

/// After a launch that went well the health of the service is checked, with the
/// startup timeout for it; and so it is after each pause, with what is left of the
/// startup timeout. Only a spawned program is noted as a child process.
pub proof fn a_launch_or_pause_is_followed_by_a_check(
    server: ManagedServer,
    status: String,
    since: Moment,
    now: Moment,
)
    ensures
        start_step(server, StartEvent::SpawnEnded { spawned: Ok(()), now }) == (
            ManagedServer { has_child: true, ..server },
            probe_step(server.config, now, now),
        ),
        start_step(
            server,
            StartEvent::CommandEnded { exit: Ok(CommandExit { success: true, status }), now },
        ) == (server, probe_step(server.config, now, now)),
        start_step(server, StartEvent::Slept { since, now }) == (
            server,
            probe_step(server.config, since, now),
        ),
{
}

/// A health check asks for the health path at the backend, the whole of both, and
/// may take the time that is left of the startup timeout: all of it at the moment
/// since which the service is awaited, and none once it has gone by. Where that is
/// no address, no check is made, and the address is told.
pub proof fn a_check_asks_the_backend_for_its_health(
    config: ServerConfig,
    since: Moment,
    now: Moment,
)
    ensures
        match probe_step(config, since, now) {
            StartStep::Probe { url, since: s, nanos } => {
                &&& url == "http://"@ + config.backend@ + config.health@
                &&& uri_accepted(url)
                &&& s == since
                &&& now@ <= since@ + config.startup_timeout * 1_000_000_000 ==> now@ + nanos
                    == since@ + config.startup_timeout * 1_000_000_000
                &&& now@ >= since@ + config.startup_timeout * 1_000_000_000 ==> nanos == 0
            },
            StartStep::BadHealthUrl { url } => {
                &&& url == "http://"@ + config.backend@ + config.health@
                &&& !uri_accepted(url)
            },
            _ => false,
        },
{
}

/// A health check is made exactly where its address is one, with the address, the
/// moment and the time as they are given.
pub proof fn a_check_is_made_where_there_is_an_address(
    url: Seq<char>,
    accepted: bool,
    since: Moment,
    nanos: nat,
)
    ensures
        accepted ==> probe_at(url, accepted, since, nanos) == (StartStep::Probe {
            url,
            since,
            nanos,
        }),
        !accepted ==> probe_at(url, accepted, since, nanos) == (StartStep::BadHealthUrl { url }),
{
}

/// What follows a health check in a start is decided by the configuration of the
/// service, the moment since which it is awaited, the answer and the time; the
/// service stays as it is.
pub proof fn a_check_decides_alone(
    server: ManagedServer,
    since: Moment,
    status: Option<u16>,
    now: Moment,
)
    ensures
        start_step(server, StartEvent::Probed { since, status, now }) == (
            server,
            health_step(server.config, since, status, now),
        ),
{
}

/// A health check that is answered with a status from 200 to 299 ends the start
/// well, and no other answer does.
pub proof fn a_success_status_is_health(
    config: ServerConfig,
    since: Moment,
    status: Option<u16>,
    now: Moment,
)
    ensures
        health_step(config, since, status, now) == (StartStep::Finished { result: Ok(()) }) <==> (
        status matches Some(code) && 200 <= code <= 299),
{
}

/// A service that is not healthy is polled at its interval: before the startup
/// timeout has gone by, a failed check is followed by a pause of the poll interval,
/// or of the time that is left where that is shorter; no pause is longer than
/// either.
pub proof fn an_unhealthy_service_is_polled_at_its_interval(
    config: ServerConfig,
    since: Moment,
    status: Option<u16>,
    now: Moment,
)
    requires
        !(status matches Some(code) && 200 <= code <= 299),
        now@ < since@ + config.startup_timeout * 1_000_000_000,
    ensures
        match health_step(config, since, status, now) {
            StartStep::Sleep { nanos, since: s } => {
                let left = since@ + config.startup_timeout * 1_000_000_000 - now@;
                &&& s == since
                &&& nanos <= config.startup_poll_interval * 1_000_000_000
                &&& nanos <= left
                &&& left >= config.startup_poll_interval * 1_000_000_000 ==> nanos
                    == config.startup_poll_interval * 1_000_000_000
                &&& left <= config.startup_poll_interval * 1_000_000_000 ==> nanos == left
            },
            _ => false,
        },
{
}

/// A service that is not healthy once the startup timeout has gone by has not
/// started, and the failure tells the timeout and the name of the service.
pub proof fn an_unhealthy_service_is_given_up_at_the_timeout(
    config: ServerConfig,
    since: Moment,
    status: Option<u16>,
    now: Moment,
)
    requires
        !(status matches Some(code) && 200 <= code <= 299),
        now@ >= since@ + config.startup_timeout * 1_000_000_000,
    ensures
        health_step(config, since, status, now) == (StartStep::Finished {
            result: Err(
                "Health check timed out after "@ + decimal(config.startup_timeout as nat)
                    + "s for '"@ + config.name@ + "'"@,
            ),
        }),
{
}

/// A launch that fails ends the start, changes nothing of the service, and is told
/// with its whole reason.
pub proof fn failed_launches_are_told(
    server: ManagedServer,
    error: String,
    status: String,
    now: Moment,
)
    ensures
        start_step(server, StartEvent::SpawnEnded { spawned: Err(error), now }) == (
            server,
            StartStep::Finished {
                result: Err("Failed to spawn '"@ + server.config.start@ + "': "@ + error@),
            },
        ),
        start_step(
            server,
            StartEvent::CommandEnded { exit: Ok(CommandExit { success: false, status }), now },
        ) == (
            server,
            StartStep::Finished {
                result: Err(
                    "Start command exited with status "@ + status@ + " for '"@
                        + server.config.name@ + "'"@,
                ),
            },
        ),
        start_step(server, StartEvent::CommandEnded { exit: Err(error), now }) == (
            server,
            StartStep::Finished { result: Err("Failed to run start command: "@ + error@) },
        ),
{
}

/// The stop of a service with a stop command runs that command, the whole of it, in
/// whatever state the service is.
pub proof fn a_stop_runs_the_stop_command(
    server: ManagedServer,
    pid: Option<u32>,
    can_ask: bool,
)
    requires
        server.config.stop@ != "managed-subprocess"@,
    ensures
        stop_step(server, StopEvent::Requested { pid, can_ask }) == (
            server,
            StopStep::RunCommand { script: server.config.stop@ },
        ),
{
}

/// The stop of a service that runs as a child process asks the process to end where
/// that can be done, and gives it ten seconds; it kills it where processes cannot
/// be asked, and only waits for it where it has no id any more. Without a child
/// process there is nothing to do.
pub proof fn a_stop_ends_the_child_process(
    server: ManagedServer,
    pid: Option<u32>,
    can_ask: bool,
)
    requires
        server.config.stop@ == "managed-subprocess"@,
    ensures
        ({
            let (after, step) = stop_step(server, StopEvent::Requested { pid, can_ask });
            &&& after == server
            &&& step == end_child_step(server.has_child, pid, can_ask)
            &&& !server.has_child ==> step == (StopStep::Finished { result: Ok(()) })
            &&& server.has_child && !can_ask ==> step is Kill
            &&& server.has_child && can_ask && pid is None ==> step is Reap
            &&& server.has_child && can_ask && pid is Some ==> step == (StopStep::Terminate {
                pid: pid->0,
                grace_seconds: 10,
            })
        }),
{
}

/// A child process that does not end in time is killed; one that has ended or has
/// been killed is waited for, after which the service has none. All of this leaves
/// the rest of the service as it is.
pub proof fn a_child_process_is_killed_and_waited_for(server: ManagedServer)
    ensures
        stop_step(server, StopEvent::GraceEnded { exited: false }) == (server, StopStep::Kill),
        stop_step(server, StopEvent::GraceEnded { exited: true }) == (server, StopStep::Reap),
        stop_step(server, StopEvent::Killed) == (server, StopStep::Reap),
        stop_step(server, StopEvent::Reaped) == (
            ManagedServer { has_child: false, ..server },
            StopStep::Finished { result: Ok(()) },
        ),
{
}

/// A stop command that has been run ends the stop well, with whatever status; one
/// that could not be run is told with its whole reason.
pub proof fn a_stop_command_ends_the_stop(server: ManagedServer, exit: CommandExit, error: String)
    ensures
        stop_step(server, StopEvent::CommandEnded { exit: Ok(exit) }) == (
            server,
            StopStep::Finished { result: Ok(()) },
        ),
        stop_step(server, StopEvent::CommandEnded { exit: Err(error) }) == (
            server,
            StopStep::Finished { result: Err("Failed to run stop command: "@ + error@) },
        ),
{
}

/// A service is stopped for want of requests exactly where it runs and the
/// nanoseconds since its last request make up its idle timeout; from then on it
/// counts as stopping. Otherwise it stays as it is. Before its last request no time
/// has gone by.
pub proof fn idle_time_is_counted_from_the_last_request(server: ManagedServer, now: Moment)
    ensures
        ({
            let over = if now@ >= server.last_request@ {
                now@ - server.last_request@ >= server.config.idle_timeout * 1_000_000_000
            } else {
                server.config.idle_timeout == 0
            };
            let stops = server.state == ServerState::Running && over;
            &&& stops ==> idle_step(server, IdleEvent::Tick { now }) == (
                ManagedServer { state: ServerState::Stopping, ..server },
                IdleAction::Stop,
            )
            &&& !stops ==> idle_step(server, IdleEvent::Tick { now }) == (server, IdleAction::Wait)
        }),
{
}

/// Once a stop has ended the service counts as stopped, whether the stop went well
/// or not, and those who wait for it are woken.
pub proof fn an_ended_stop_leaves_the_service_stopped(
    server: ManagedServer,
    result: Result<(), String>,
)
    ensures
        idle_step(server, IdleEvent::StopEnded { result }) == (
            ManagedServer { state: ServerState::Stopped, ..server },
            IdleAction::WakeStopWaiters,
        ),
{
}

/// A child process has ten seconds to end, and services are looked at every ten
/// seconds.
pub proof fn stops_and_looks_take_ten_seconds()
    ensures
        STOP_GRACE_SECONDS == 10,
        IDLE_CHECK_SECONDS == 10,
{
}

} // verus!
