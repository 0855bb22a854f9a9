use portredirect::protocol::control::RequestedClientConfiguration;
use portredirect::server::client_handler::{
    close_reason_text, ClientConnectionSetup, CloseReason, SetupAction, SetupEvent, SetupPhase,
};
use portredirect::server::PortSpec;

fn allowed() -> Vec<PortSpec> {
    vec![PortSpec::Single(443), PortSpec::Range(8000, 8100)]
}

#[test]
fn client_gets_a_listener_on_an_allowed_port() {
    let mut s = ClientConnectionSetup::new();
    assert_eq!(s.step(SetupEvent::AuthSucceeded, &allowed()), SetupAction::ReceiveConfiguration);
    let cfg = RequestedClientConfiguration { port: 8050 };
    assert_eq!(s.step(SetupEvent::Configured(cfg), &allowed()), SetupAction::BindListener(8050));
    assert_eq!(s.step(SetupEvent::ListenerBound, &allowed()), SetupAction::RunControlChannel);
    assert_eq!(s.phase, SetupPhase::Serving(8050));
    assert_eq!(
        s.step(SetupEvent::ControlChannelEnded, &allowed()),
        SetupAction::Close(CloseReason::NormalShutdown)
    );
    assert_eq!(s.phase, SetupPhase::Closed);
}

#[test]
fn disallowed_port_closes_the_connection() {
    let mut s = ClientConnectionSetup::new();
    s.step(SetupEvent::AuthSucceeded, &allowed());
    let cfg = RequestedClientConfiguration { port: 22 };
    assert_eq!(
        s.step(SetupEvent::Configured(cfg), &allowed()),
        SetupAction::Close(CloseReason::PortNotAllowed)
    );
}

#[test]
fn failures_close_with_their_reason() {
    let cases = [
        (vec![SetupEvent::AuthFailed], CloseReason::FailedAuthentication),
        (vec![SetupEvent::AuthTimedOut], CloseReason::AuthenticationTimedOut),
        (vec![SetupEvent::AuthSucceeded, SetupEvent::ConfigurationFailed], CloseReason::FailedConfiguration),
        (vec![SetupEvent::AuthSucceeded, SetupEvent::ConfigurationTimedOut], CloseReason::ConfigurationTimedOut),
        (
            vec![
                SetupEvent::AuthSucceeded,
                SetupEvent::Configured(RequestedClientConfiguration { port: 443 }),
                SetupEvent::BindFailed,
            ],
            CloseReason::FailedBindingListener,
        ),
    ];
    for (events, reason) in cases {
        let mut s = ClientConnectionSetup::new();
        let mut last = None;
        for e in events {
            last = Some(s.step(e, &allowed()));
        }
        assert_eq!(last, Some(SetupAction::Close(reason)));
        assert_eq!(s.phase, SetupPhase::Closed);
    }
}

#[test]
fn close_reasons_have_their_texts() {
    assert_eq!(close_reason_text(CloseReason::FailedAuthentication), "ERR failed authentication");
    assert_eq!(close_reason_text(CloseReason::AuthenticationTimedOut), "ERR authentication timed out");
    assert_eq!(close_reason_text(CloseReason::FailedConfiguration), "ERR failed configuration");
    assert_eq!(close_reason_text(CloseReason::ConfigurationTimedOut), "ERR configuration timed out");
    assert_eq!(close_reason_text(CloseReason::PortNotAllowed), "ERR port not allowed");
    assert_eq!(close_reason_text(CloseReason::FailedBindingListener), "ERR failed binding tcp listener");
    assert_eq!(close_reason_text(CloseReason::NormalShutdown), "OK normal shutdown");
}

#[test]
fn unexpected_events_close_the_connection() {
    let mut setup = ClientConnectionSetup::new();
    let allowed = [PortSpec::Single(8080)];
    assert_eq!(
        setup.step(SetupEvent::ListenerBound, &allowed),
        SetupAction::Close(CloseReason::FailedAuthentication)
    );
    assert_eq!(setup.step(SetupEvent::AuthSucceeded, &allowed), SetupAction::Close(CloseReason::NormalShutdown));
    assert_eq!(setup.phase, SetupPhase::Closed);
}
