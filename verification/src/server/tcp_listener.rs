//! The decisions of the server's TCP listener for one client: what to do
//! with each accepted connection and when to stop.
use vstd::prelude::*;

verus! {

/// What happened while the listener waited or worked.
#[derive(Clone, Copy, Debug, PartialEq, Eq, Structural)]
pub enum ListenerEvent {
    /// The client's control channel ended: the listener must stop.
    Cancelled,
    /// Accepting a TCP connection failed.
    AcceptFailed,
    /// A TCP connection was accepted.
    Accepted,
    /// No QUIC stream could be opened for the accepted connection.
    StreamOpenFailed,
    /// A QUIC stream was opened for the accepted connection.
    StreamOpened,
}

/// What the listener does next.
#[derive(Clone, Copy, Debug, PartialEq, Eq, Structural)]
pub enum ListenerAction {
    /// Stop listening and end without error.
    Stop,
    /// Count the failed accept and wait for the next connection.
    CountAcceptFailure,
    /// Count the accepted connection and open a QUIC stream for it.
    OpenQuicStream,
    /// Count the stream failure, shut the TCP connection down and wait for the next one.
    ShutDownTcp,
    /// Forward between the TCP connection and the QUIC stream in a task of
    /// its own, and wait for the next connection.
    StartForwarding,
}

/// The listener's decision for each event.
pub open spec fn listener_next(event: ListenerEvent) -> ListenerAction {
    match event {
        ListenerEvent::Cancelled => ListenerAction::Stop,
        ListenerEvent::AcceptFailed => ListenerAction::CountAcceptFailure,
        ListenerEvent::Accepted => ListenerAction::OpenQuicStream,
        ListenerEvent::StreamOpenFailed => ListenerAction::ShutDownTcp,
        ListenerEvent::StreamOpened => ListenerAction::StartForwarding,
    }
}

/// Decides what the listener does after `event`.
pub fn listener_step(event: ListenerEvent) -> (action: ListenerAction)
    ensures
        action == listener_next(event),
{
    match event {
        ListenerEvent::Cancelled => ListenerAction::Stop,
        ListenerEvent::AcceptFailed => ListenerAction::CountAcceptFailure,
        ListenerEvent::Accepted => ListenerAction::OpenQuicStream,
        ListenerEvent::StreamOpenFailed => ListenerAction::ShutDownTcp,
        ListenerEvent::StreamOpened => ListenerAction::StartForwarding,
    }
}

/// Only a cancellation stops the listener: no failure of a single
/// connection ends it.
pub proof fn lemma_only_cancellation_stops(event: ListenerEvent)
    ensures
        (listener_next(event) == ListenerAction::Stop) <==> event == ListenerEvent::Cancelled,
{
}

} // verus!
