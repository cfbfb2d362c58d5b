//! Establishing the one connection a session runs on, and the exit codes of
//! each way that can fail.
use vstd::prelude::*;

verus! {

/// The exit code after a session ended, however it ended.
pub const SUCCESS_EXIT_CODE: i32 = 0;

/// The exit code when the listening socket cannot be bound.
pub const BIND_EXIT_CODE: i32 = 3;

/// The exit code when accepting a connection fails.
pub const ACCEPT_EXIT_CODE: i32 = 4;

/// The exit code when dialling the peer fails.
pub const CONNECT_EXIT_CODE: i32 = 5;

/// Whether a listener serves one peer and exits, or waits for the next peer
/// after each session (one at a time, never two at once).
#[derive(Clone, Copy, Debug, PartialEq, Eq, Structural)]
pub enum SessionPolicy {
    SingleSession,
    RepeatAccept,
}

/// The outcome of the last piece of establishment work.
#[derive(Clone, Copy, Debug, PartialEq, Eq, Structural)]
pub enum EndpointEvent {
    Bound,
    BindFailed,
    Accepted,
    AcceptFailed,
    Connected,
    ConnectFailed,
    SessionEnded,
}

/// The establishment work to do next.
#[derive(Clone, Copy, Debug, PartialEq, Eq, Structural)]
pub enum EndpointAction {
    /// Bind a listening socket to the configured address.
    Bind,
    /// Dial the configured address.
    Connect,
    /// Wait for the next peer on the listening socket.
    Accept,
    /// Run a session on the connection just made.
    Serve,
    /// End the process with this code.
    Exit(i32),
}

/// The first work: bind in listen mode, dial otherwise.
pub fn opening_action(listen: bool) -> (r: EndpointAction)
    ensures
        r == (if listen {
            EndpointAction::Bind
        } else {
            EndpointAction::Connect
        }),
{
    if listen {
        EndpointAction::Bind
    } else {
        EndpointAction::Connect
    }
}

/// What follows each outcome. Each failure ends the process with its own
/// code; a finished session leads to the next accept only for a listener
/// that repeats, and otherwise to a successful exit.
pub open spec fn endpoint_next_spec(
    listen: bool,
    policy: SessionPolicy,
    e: EndpointEvent,
) -> EndpointAction {
    match e {
        EndpointEvent::Bound => EndpointAction::Accept,
        EndpointEvent::BindFailed => EndpointAction::Exit(BIND_EXIT_CODE),
        EndpointEvent::Accepted => EndpointAction::Serve,
        EndpointEvent::AcceptFailed => EndpointAction::Exit(ACCEPT_EXIT_CODE),
        EndpointEvent::Connected => EndpointAction::Serve,
        EndpointEvent::ConnectFailed => EndpointAction::Exit(CONNECT_EXIT_CODE),
        EndpointEvent::SessionEnded => if listen && policy == SessionPolicy::RepeatAccept {
            EndpointAction::Accept
        } else {
            EndpointAction::Exit(SUCCESS_EXIT_CODE)
        },
    }
}

/// Decides the establishment work that follows an outcome.
pub fn endpoint_next(listen: bool, policy: SessionPolicy, e: EndpointEvent) -> (r: EndpointAction)
    ensures
        r == endpoint_next_spec(listen, policy, e),
{
    match e {
        EndpointEvent::Bound => EndpointAction::Accept,
        EndpointEvent::BindFailed => EndpointAction::Exit(BIND_EXIT_CODE),
        EndpointEvent::Accepted => EndpointAction::Serve,
        EndpointEvent::AcceptFailed => EndpointAction::Exit(ACCEPT_EXIT_CODE),
        EndpointEvent::Connected => EndpointAction::Serve,
        EndpointEvent::ConnectFailed => EndpointAction::Exit(CONNECT_EXIT_CODE),
        EndpointEvent::SessionEnded => {
            if listen && policy == SessionPolicy::RepeatAccept {
                EndpointAction::Accept
            } else {
                EndpointAction::Exit(SUCCESS_EXIT_CODE)
            }
        },
    }
}

} // verus!
