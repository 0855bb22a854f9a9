//! Setting up one client's QUIC connection on the server.
//!
//! A connecting client must first authenticate, then name the port it wants
//! the server to listen on, which must be an allowed one. Only then does the
//! server bind a TCP listener for it and serve the control channel. Every
//! failure closes the QUIC connection with a reason.
//!
//! The setup is a state machine: the caller performs the action it is given
//! and hands its result back as the next event.
use vstd::prelude::*;

use crate::protocol::control::RequestedClientConfiguration;
use crate::server::{any_allows, AllowedPorts, PortSpec};

verus! {

/// Where the setup of a client connection stands.
#[derive(Clone, Copy, Debug, PartialEq, Eq, Structural)]
pub enum SetupPhase {
    /// Waiting for the client to authenticate.
    Authenticating,
    /// Waiting for the client's requested configuration.
    Configuring,
    /// Binding the TCP listener on the requested port.
    Binding(u16),
    /// Forwarding for the client; the control channel is running.
    Serving(u16),
    /// The connection is closed.
    Closed,
}

/// The result of the last action.
#[derive(Clone, Copy, Debug, PartialEq, Eq, Structural)]
pub enum SetupEvent {
    AuthSucceeded,
    AuthFailed,
    AuthTimedOut,
    Configured(RequestedClientConfiguration),
    ConfigurationFailed,
    ConfigurationTimedOut,
    ListenerBound,
    BindFailed,
    ControlChannelEnded,
}

/// Why the server closes a client's QUIC connection.
#[derive(Clone, Copy, Debug, PartialEq, Eq, Structural)]
pub enum CloseReason {
    FailedAuthentication,
    AuthenticationTimedOut,
    FailedConfiguration,
    ConfigurationTimedOut,
    PortNotAllowed,
    FailedBindingListener,
    NormalShutdown,
}

/// What the server does next for this client.
#[derive(Clone, Copy, Debug, PartialEq, Eq, Structural)]
pub enum SetupAction {
    /// Receive the client's configuration over the control stream.
    ReceiveConfiguration,
    /// Bind a TCP listener on this port.
    BindListener(u16),
    /// Run the TCP listener and the control channel.
    RunControlChannel,
    /// Close the QUIC connection with this reason.
    Close(CloseReason),
}

/// The setup's transition: the next phase and the action to take.
pub open spec fn setup_next(phase: SetupPhase, event: SetupEvent, allowed: Seq<PortSpec>) -> (
    SetupPhase,
    SetupAction,
) {
    match (phase, event) {
        (SetupPhase::Authenticating, SetupEvent::AuthSucceeded) => (
            SetupPhase::Configuring,
            SetupAction::ReceiveConfiguration,
        ),
        (SetupPhase::Authenticating, SetupEvent::AuthTimedOut) => (
            SetupPhase::Closed,
            SetupAction::Close(CloseReason::AuthenticationTimedOut),
        ),
        (SetupPhase::Authenticating, _) => (
            SetupPhase::Closed,
            SetupAction::Close(CloseReason::FailedAuthentication),
        ),
        (SetupPhase::Configuring, SetupEvent::Configured(config)) => if any_allows(
            allowed,
            config.port,
        ) {
            (SetupPhase::Binding(config.port), SetupAction::BindListener(config.port))
        } else {
            (SetupPhase::Closed, SetupAction::Close(CloseReason::PortNotAllowed))
        },
        (SetupPhase::Configuring, SetupEvent::ConfigurationTimedOut) => (
            SetupPhase::Closed,
            SetupAction::Close(CloseReason::ConfigurationTimedOut),
        ),
        (SetupPhase::Configuring, _) => (
            SetupPhase::Closed,
            SetupAction::Close(CloseReason::FailedConfiguration),
        ),
        (SetupPhase::Binding(port), SetupEvent::ListenerBound) => (
            SetupPhase::Serving(port),
            SetupAction::RunControlChannel,
        ),
        (SetupPhase::Binding(_), _) => (
            SetupPhase::Closed,
            SetupAction::Close(CloseReason::FailedBindingListener),
        ),
        (_, _) => (SetupPhase::Closed, SetupAction::Close(CloseReason::NormalShutdown)),
    }
}

/// The setup of one client connection.
pub struct ClientConnectionSetup {
    pub phase: SetupPhase,
}

impl ClientConnectionSetup {
    /// A new connection: the client must authenticate first.
    pub fn new() -> (setup: Self)
        ensures
            setup.phase == SetupPhase::Authenticating,
    {
        ClientConnectionSetup { phase: SetupPhase::Authenticating }
    }

    /// Takes the result of the last action and returns the next action;
    /// `allowed` are the ports clients may request.
    pub fn step(&mut self, event: SetupEvent, allowed: &[PortSpec]) -> (action: SetupAction)
        ensures
            (final(self).phase, action) == setup_next(old(self).phase, event, allowed@),
    {
        match (self.phase, event) {
            (SetupPhase::Authenticating, SetupEvent::AuthSucceeded) => {
                self.phase = SetupPhase::Configuring;
                SetupAction::ReceiveConfiguration
            },
            (SetupPhase::Authenticating, SetupEvent::AuthTimedOut) => {
                self.phase = SetupPhase::Closed;
                SetupAction::Close(CloseReason::AuthenticationTimedOut)
            },
            (SetupPhase::Authenticating, _) => {
                self.phase = SetupPhase::Closed;
                SetupAction::Close(CloseReason::FailedAuthentication)
            },
            (SetupPhase::Configuring, SetupEvent::Configured(config)) => {
                if allowed.allows(config.port) {
                    self.phase = SetupPhase::Binding(config.port);
                    SetupAction::BindListener(config.port)
                } else {
                    self.phase = SetupPhase::Closed;
                    SetupAction::Close(CloseReason::PortNotAllowed)
                }
            },
            (SetupPhase::Configuring, SetupEvent::ConfigurationTimedOut) => {
                self.phase = SetupPhase::Closed;
                SetupAction::Close(CloseReason::ConfigurationTimedOut)
            },
            (SetupPhase::Configuring, _) => {
                self.phase = SetupPhase::Closed;
                SetupAction::Close(CloseReason::FailedConfiguration)
            },
            (SetupPhase::Binding(port), SetupEvent::ListenerBound) => {
                self.phase = SetupPhase::Serving(port);
                SetupAction::RunControlChannel
            },
            (SetupPhase::Binding(_), _) => {
                self.phase = SetupPhase::Closed;
                SetupAction::Close(CloseReason::FailedBindingListener)
            },
            (_, _) => {
                self.phase = SetupPhase::Closed;
                SetupAction::Close(CloseReason::NormalShutdown)
            },
        }
    }
}

/// The phase and actions after a run of events from `phase`.
pub open spec fn run_setup(phase: SetupPhase, events: Seq<SetupEvent>, allowed: Seq<PortSpec>) -> (
    SetupPhase,
    Seq<SetupAction>,
)
    decreases events.len(),
{
    if events.len() == 0 {
        (phase, Seq::empty())
    } else {
        let (next, action) = setup_next(phase, events[0], allowed);
        let (last, actions) = run_setup(next, events.drop_first(), allowed);
        (last, seq![action] + actions)
    }
}

/// The server only binds a listener for a client that has authenticated, and
/// only on a port the client asked for that the server allows: in any run of
/// events from a new connection, every `BindListener(p)` comes after
/// `AuthSucceeded` and has an allowed `p`.
pub proof fn lemma_listener_only_after_auth_on_allowed_port(
    events: Seq<SetupEvent>,
    allowed: Seq<PortSpec>,
)
    ensures
        forall|i: int|
            0 <= i < run_setup(SetupPhase::Authenticating, events, allowed).1.len() ==> (
            #[trigger] run_setup(SetupPhase::Authenticating, events, allowed).1[i] matches SetupAction::BindListener(p)
                ==> any_allows(allowed, p) && exists|j: int| 0 <= j < i && events[j] == SetupEvent::AuthSucceeded),
{
    lemma_run_from(SetupPhase::Authenticating, events, allowed);
}

/// After authentication, the port a client asks for decides the setup: a port
/// the server's list allows is bound, that very port; any other port closes
/// the connection as not allowed.
pub proof fn lemma_requested_port_decides(port: u16, allowed: Seq<PortSpec>)
    ensures
        any_allows(allowed, port) ==> setup_next(
            SetupPhase::Configuring,
            SetupEvent::Configured((RequestedClientConfiguration { port })),
            allowed,
        ) == (SetupPhase::Binding(port), SetupAction::BindListener(port)),
        !any_allows(allowed, port) ==> setup_next(
            SetupPhase::Configuring,
            SetupEvent::Configured((RequestedClientConfiguration { port })),
            allowed,
        ) == (SetupPhase::Closed, SetupAction::Close(CloseReason::PortNotAllowed)),
{
}

/// The invariant behind the law above, for a run from any phase: no listener is bound from a closed
/// setup, and from a setup still authenticating only after `AuthSucceeded`.
proof fn lemma_run_from(phase: SetupPhase, events: Seq<SetupEvent>, allowed: Seq<PortSpec>)
    ensures
        forall|i: int|
            0 <= i < run_setup(phase, events, allowed).1.len() ==> (
            #[trigger] run_setup(phase, events, allowed).1[i] matches SetupAction::BindListener(p)
                ==> any_allows(allowed, p) && phase != SetupPhase::Closed && (phase
                != SetupPhase::Authenticating || exists|j: int|
                0 <= j < i && events[j] == SetupEvent::AuthSucceeded)),
    decreases events.len(),
{
    if events.len() > 0 {
        let (next, action) = setup_next(phase, events[0], allowed);
        let rest = events.drop_first();
        lemma_run_from(next, rest, allowed);
        let actions = run_setup(phase, events, allowed).1;
        let tail = run_setup(next, rest, allowed).1;
        assert(actions == seq![action] + tail);
        assert(phase == SetupPhase::Authenticating && next != SetupPhase::Closed ==> events[0]
            == SetupEvent::AuthSucceeded);
        assert(phase == SetupPhase::Closed ==> next == SetupPhase::Closed);
        assert(next != SetupPhase::Authenticating);
        assert forall|i: int| 0 <= i < actions.len() implies (#[trigger] actions[i] matches SetupAction::BindListener(p)
            ==> any_allows(allowed, p) && phase != SetupPhase::Closed && (phase
            != SetupPhase::Authenticating || exists|j: int|
            0 <= j < i && events[j] == SetupEvent::AuthSucceeded)) by {
            if i > 0 {
                assert(actions[i] == tail[i - 1]);
                if actions[i] matches SetupAction::BindListener(p) {
                    if phase == SetupPhase::Authenticating {
                        assert(events[0] == SetupEvent::AuthSucceeded);
                    }
                }
            }
        }
    }
}

/// The reason text sent with the close of a client's QUIC connection.
pub open spec fn close_reason_spec_text(reason: CloseReason) -> Seq<char> {
    match reason {
        CloseReason::FailedAuthentication => "ERR failed authentication"@,
        CloseReason::AuthenticationTimedOut => "ERR authentication timed out"@,
        CloseReason::FailedConfiguration => "ERR failed configuration"@,
        CloseReason::ConfigurationTimedOut => "ERR configuration timed out"@,
        CloseReason::PortNotAllowed => "ERR port not allowed"@,
        CloseReason::FailedBindingListener => "ERR failed binding tcp listener"@,
        CloseReason::NormalShutdown => "OK normal shutdown"@,
    }
}

/// The reason text sent with the close of a client's QUIC connection.
pub fn close_reason_text(reason: CloseReason) -> (text: &'static str)
    ensures
        text@ == close_reason_spec_text(reason),
{
    match reason {
        CloseReason::FailedAuthentication => "ERR failed authentication",
        CloseReason::AuthenticationTimedOut => "ERR authentication timed out",
        CloseReason::FailedConfiguration => "ERR failed configuration",
        CloseReason::ConfigurationTimedOut => "ERR configuration timed out",
        CloseReason::PortNotAllowed => "ERR port not allowed",
        CloseReason::FailedBindingListener => "ERR failed binding tcp listener",
        CloseReason::NormalShutdown => "OK normal shutdown",
    }
}

} // verus!
