//! Decisions of the loops that serve control connections.
//!
//! The loops themselves wait on sockets and channels; what they do with each outcome is
//! decided here.

use vstd::prelude::*;

verus! {

/// What a loop writes to the log when it ends.
#[derive(Clone, Copy, Debug, PartialEq, Eq, Structural)]
pub enum Notice {
    Silent,
    Trace,
    Debug,
    Error,
}

/// How an I/O operation on the connection failed, as far as the loops tell failures
/// apart.
#[derive(Clone, Copy, Debug, PartialEq, Eq, Structural)]
pub enum IoFailure {
    /// The peer closed the connection.
    UnexpectedEof,
    Other,
}

/// What came of waiting for the next request.
#[derive(Clone, Copy, Debug, PartialEq, Eq, Structural)]
pub enum Received {
    /// The coordinator stopped listening to control events.
    CoordinatorStopped,
    /// A complete message arrived.
    Message,
    Failed(IoFailure),
}

/// What came of sending a reply. A reply that could not be serialized was never sent.
#[derive(Clone, Copy, Debug, PartialEq, Eq, Structural)]
pub enum Sent {
    Done,
    NotSerializable,
    Failed(IoFailure),
}

/// What a connection's loop does next.
#[derive(Clone, Copy, Debug, PartialEq, Eq, Structural)]
pub enum Next {
    Proceed,
    Close(Notice),
}

pub open spec fn after_receive_spec(received: Received) -> Next {
    match received {
        Received::Message => Next::Proceed,
        Received::CoordinatorStopped => Next::Close(Notice::Silent),
        Received::Failed(IoFailure::UnexpectedEof) => Next::Close(Notice::Trace),
        Received::Failed(IoFailure::Other) => Next::Close(Notice::Error),
    }
}

pub open spec fn after_send_spec(sent: Sent, coordinator_stopped: bool) -> Next {
    match sent {
        Sent::Done => if coordinator_stopped {
            Next::Close(Notice::Silent)
        } else {
            Next::Proceed
        },
        Sent::NotSerializable => Next::Close(Notice::Error),
        Sent::Failed(IoFailure::UnexpectedEof) => Next::Close(Notice::Debug),
        Sent::Failed(IoFailure::Other) => Next::Close(Notice::Error),
    }
}

/// After waiting for a request: a message is handled; anything else closes the
/// connection. A peer that went away is worth a trace, another failure is an error.
pub fn after_receive(received: Received) -> (next: Next)
    ensures
        next == after_receive_spec(received),
{
    match received {
        Received::Message => Next::Proceed,
        Received::CoordinatorStopped => Next::Close(Notice::Silent),
        Received::Failed(failure) => match failure {
            IoFailure::UnexpectedEof => Next::Close(Notice::Trace),
            IoFailure::Other => Next::Close(Notice::Error),
        },
    }
}

/// After sending a reply: the connection goes on to the next request unless the reply
/// said that the coordinator stopped, or could not be serialized or sent.
pub fn after_send(sent: Sent, coordinator_stopped: bool) -> (next: Next)
    ensures
        next == after_send_spec(sent, coordinator_stopped),
{
    match sent {
        Sent::Done => if coordinator_stopped {
            Next::Close(Notice::Silent)
        } else {
            Next::Proceed
        },
        Sent::NotSerializable => Next::Close(Notice::Error),
        Sent::Failed(failure) => match failure {
            IoFailure::UnexpectedEof => Next::Close(Notice::Debug),
            IoFailure::Other => Next::Close(Notice::Error),
        },
    }
}

/// What came of waiting for the next connection.
#[derive(Clone, Copy, Debug, PartialEq, Eq, Structural)]
pub enum Accepted {
    /// The coordinator stopped listening to control events.
    CoordinatorStopped,
    Connection,
    /// Accepting failed; `reported` says whether the coordinator took the report.
    Failed { reported: bool },
}

/// What the listener does next.
#[derive(Clone, Copy, Debug, PartialEq, Eq, Structural)]
pub enum ListenerStep {
    /// Serve the new connection, and go on listening.
    Serve,
    /// Go on listening.
    Listen,
    Stop,
}

pub open spec fn after_accept_spec(accepted: Accepted) -> ListenerStep {
    match accepted {
        Accepted::Connection => ListenerStep::Serve,
        Accepted::CoordinatorStopped => ListenerStep::Stop,
        Accepted::Failed { reported } => if reported {
            ListenerStep::Listen
        } else {
            ListenerStep::Stop
        },
    }
}

/// After waiting for a connection: the listener stops only when the coordinator has
/// stopped listening, which it also learns when a failure cannot be reported.
pub fn after_accept(accepted: Accepted) -> (step: ListenerStep)
    ensures
        step == after_accept_spec(accepted),
{
    match accepted {
        Accepted::Connection => ListenerStep::Serve,
        Accepted::CoordinatorStopped => ListenerStep::Stop,
        Accepted::Failed { reported } => if reported {
            ListenerStep::Listen
        } else {
            ListenerStep::Stop
        },
    }
}

} // verus!
