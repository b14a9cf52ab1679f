//! What holds of a service whatever is done to it, in whatever order.

use vstd::prelude::*;

use crate::clock::Moment;
use crate::lifecycle::{
    idle_step, start_step, stop_step, IdleAction, IdleEvent, StartEvent, StopEvent,
};
use crate::proxy::{request_step, wakes_startup_waiters, RequestEvent};
use crate::reply::ReplyView;
use crate::server::{ManagedServer, ServerState};

verus! {

/// A service together with the starts and the stops of it that are under way.
pub struct Service {
    pub server: ManagedServer,
    pub starts: nat,
    pub stops: nat,
}

/// Something that is done to a service.
pub enum Operation {
    /// An event of a request; `refused` is the reply to it where it fails
    /// authentication.
    Request { refused: Option<ReplyView>, event: RequestEvent, now: Moment },
    /// An event of a start.
    Start(StartEvent),
    /// An event of a stop.
    Stop(StopEvent),
    /// An event of the idle monitor.
    Idle(IdleEvent),
}

/// A start ends only where one is under way, and so does a stop.
pub open spec fn can_happen(service: Service, operation: Operation) -> bool {
    match operation {
        Operation::Request { event, .. } => event is StartEnded ==> service.starts > 0,
        Operation::Idle(event) => event is StopEnded ==> service.stops > 0,
        _ => true,
    }
}

/// The service after an operation.
pub open spec fn after(service: Service, operation: Operation) -> Service {
    match operation {
        Operation::Request { refused, event, now } => {
            let (server, step) = request_step(service.server, refused, event, now);
            let ended: int = if event is StartEnded {
                1
            } else {
                0
            };
            let begun: int = if step is StartBackend {
                1
            } else {
                0
            };
            Service { server, starts: (service.starts - ended + begun) as nat, ..service }
        },
        Operation::Start(event) => Service {
            server: start_step(service.server, event).0,
            ..service
        },
        Operation::Stop(event) => Service {
            server: stop_step(service.server, event).0,
            ..service
        },
        Operation::Idle(event) => {
            let (server, action) = idle_step(service.server, event);
            let ended: int = if event is StopEnded {
                1
            } else {
                0
            };
            let begun: int = if action == IdleAction::Stop {
                1
            } else {
                0
            };
            Service { server, stops: (service.stops - ended + begun) as nat, ..service }
        },
    }
}

/// Whether the state of a service says what is under way: a single start while it
/// is starting, a single stop while it is stopping, nothing otherwise.
pub open spec fn in_order(service: Service) -> bool {
    &&& service.starts == if service.server.state == ServerState::Starting {
        1nat
    } else {
        0nat
    }
    &&& service.stops == if service.server.state == ServerState::Stopping {
        1nat
    } else {
        0nat
    }
}

/// Whether a service may go from one state to another: from stopped to starting,
/// from there to running or back to stopped, from running to stopping, from there
/// to stopped; or stay as it is.
pub open spec fn may_go(from: ServerState, to: ServerState) -> bool {
    ||| from == to
    ||| (from == ServerState::Stopped && to == ServerState::Starting)
    ||| (from == ServerState::Starting && to == ServerState::Running)
    ||| (from == ServerState::Starting && to == ServerState::Stopped)
    ||| (from == ServerState::Running && to == ServerState::Stopping)
    ||| (from == ServerState::Stopping && to == ServerState::Stopped)
}

/// Every operation keeps a service in order and moves its state only along the
/// cycle; its configuration and its token never change.
pub proof fn operations_keep_order(service: Service, operation: Operation)
    requires
        in_order(service),
        can_happen(service, operation),
    ensures
        in_order(after(service, operation)),
        may_go(service.server.state, after(service, operation).server.state),
        after(service, operation).server.config == service.server.config,
        after(service, operation).server.auth_token == service.server.auth_token,
{
}

/// Whether the operations can happen one after the other.
pub open spec fn can_all_happen(service: Service, operations: Seq<Operation>) -> bool
    decreases operations.len(),
{
    operations.len() > 0 ==> {
        &&& can_all_happen(service, operations.drop_last())
        &&& can_happen(after_all(service, operations.drop_last()), operations.last())
    }
}

/// The service after operations one after the other.
pub open spec fn after_all(service: Service, operations: Seq<Operation>) -> Service
    decreases operations.len(),
{
    if operations.len() == 0 {
        service
    } else {
        after(after_all(service, operations.drop_last()), operations.last())
    }
}

/// Whatever is done to a new service, at most one start and at most one stop of
/// it are under way, never both, and its configuration and token stay as they
/// were.
pub proof fn one_start_or_stop_at_a_time(server: ManagedServer, operations: Seq<Operation>)
    requires
        server.state == ServerState::Stopped,
        can_all_happen(Service { server, starts: 0, stops: 0 }, operations),
    ensures
        ({
            let service = after_all(Service { server, starts: 0, stops: 0 }, operations);
            &&& in_order(service)
            &&& service.starts + service.stops <= 1
            &&& service.server.config == server.config
            &&& service.server.auth_token == server.auth_token
        }),
    decreases operations.len(),
{
    if operations.len() > 0 {
        one_start_or_stop_at_a_time(server, operations.drop_last());
        operations_keep_order(
            after_all(Service { server, starts: 0, stops: 0 }, operations.drop_last()),
            operations.last(),
        );
    }
}

/// While a service is in order, a start is begun only where none is under way,
/// and so is a stop.
pub proof fn nothing_is_begun_twice(service: Service, operation: Operation)
    requires
        in_order(service),
        can_happen(service, operation),
    ensures
        operation matches Operation::Request { refused, event, now } ==> (request_step(
            service.server,
            refused,
            event,
            now,
        ).1 is StartBackend ==> service.starts == 0 && service.stops == 0),
        operation matches Operation::Idle(event) ==> (idle_step(service.server, event).1
            == IdleAction::Stop ==> service.starts == 0 && service.stops == 0),
{
}

/// Whoever waits for the end of a start or of a stop is woken: a service leaves
/// the state in which it starts only with the end of a start, which wakes those
/// who wait for it, and the state in which it stops only where those who wait for
/// that are to be woken.
pub proof fn nobody_waits_in_vain(service: Service, operation: Operation)
    requires
        in_order(service),
        can_happen(service, operation),
    ensures
        service.server.state == ServerState::Starting && after(service, operation).server.state
            != ServerState::Starting ==> (operation matches Operation::Request { event, .. }
            && wakes_startup_waiters(event)),
        service.server.state == ServerState::Stopping && after(service, operation).server.state
            != ServerState::Stopping ==> (operation matches Operation::Idle(event) && idle_step(
            service.server,
            event,
        ).1 == IdleAction::WakeStopWaiters),
{
}

} // verus!
