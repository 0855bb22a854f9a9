use portredirect::protocol::keepalive::{
    ping_message, pong_message, ClientPhase, KeepaliveAction, KeepaliveClient, KeepaliveEvent,
    KeepaliveServer, ReadOutcome, ServerPhase,
};

fn client_after_ping() -> KeepaliveClient {
    let mut c = KeepaliveClient::new();
    assert_eq!(c.step(KeepaliveEvent::Tick), KeepaliveAction::WritePing);
    assert_eq!(c.step(KeepaliveEvent::Written(true)), KeepaliveAction::Flush);
    assert_eq!(c.step(KeepaliveEvent::Flushed(true)), KeepaliveAction::ReadLine);
    c
}

#[test]
fn test_keepalive_client_good() {
    let mut c = client_after_ping();
    let a = c.step(KeepaliveEvent::Read(ReadOutcome::Line(b"PONG\n".to_vec())));
    assert_eq!(a, KeepaliveAction::WaitForTick);
    assert_eq!(c.pong_count, 1);
    assert_eq!(c.phase, ClientPhase::WaitingForTick);
}

#[test]
fn test_keepalive_client_wrong_response() {
    let mut c = client_after_ping();
    let a = c.step(KeepaliveEvent::Read(ReadOutcome::Line(b"WRONG\n".to_vec())));
    assert_eq!(a, KeepaliveAction::Stop);
    assert_eq!(c.pong_count, 0);
}

#[test]
fn test_keepalive_client_write_error() {
    let mut c = KeepaliveClient::new();
    assert_eq!(c.step(KeepaliveEvent::Tick), KeepaliveAction::WritePing);
    assert_eq!(c.step(KeepaliveEvent::Written(false)), KeepaliveAction::Stop);
    assert_eq!(c.phase, ClientPhase::Stopped);
}

#[test]
fn test_keepalive_client_timeout() {
    let mut c = client_after_ping();
    assert_eq!(c.step(KeepaliveEvent::Read(ReadOutcome::TimedOut)), KeepaliveAction::Stop);
    assert_eq!(c.step(KeepaliveEvent::Tick), KeepaliveAction::Stop);
}

#[test]
fn test_keepalive_server_good() {
    let mut s = KeepaliveServer::new();
    assert_eq!(s.step(KeepaliveEvent::Read(ReadOutcome::Line(b"PING\n".to_vec()))), KeepaliveAction::WritePong);
    assert_eq!(s.step(KeepaliveEvent::Written(true)), KeepaliveAction::Flush);
    assert_eq!(s.step(KeepaliveEvent::Flushed(true)), KeepaliveAction::ReadLine);
    assert_eq!(s.phase, ServerPhase::AwaitingPing);
}

#[test]
fn test_keepalive_server_wrong_response() {
    let mut s = KeepaliveServer::new();
    assert_eq!(s.step(KeepaliveEvent::Read(ReadOutcome::Line(b"WRONG\n".to_vec()))), KeepaliveAction::Stop);
}

#[test]
fn test_keepalive_server_write_error() {
    let mut s = KeepaliveServer::new();
    assert_eq!(s.step(KeepaliveEvent::Read(ReadOutcome::Line(b"PING\n".to_vec()))), KeepaliveAction::WritePong);
    assert_eq!(s.step(KeepaliveEvent::Written(false)), KeepaliveAction::Stop);
}

#[test]
fn test_keepalive_server_timeout() {
    let mut s = KeepaliveServer::new();
    assert_eq!(s.step(KeepaliveEvent::Read(ReadOutcome::TimedOut)), KeepaliveAction::Stop);
    assert_eq!(s.step(KeepaliveEvent::Read(ReadOutcome::Line(b"PING\n".to_vec()))), KeepaliveAction::Stop);
}

#[test]
fn keepalive_closed_and_failed_reads_stop() {
    let mut c = client_after_ping();
    assert_eq!(c.step(KeepaliveEvent::Read(ReadOutcome::Closed)), KeepaliveAction::Stop);
    let mut c = client_after_ping();
    assert_eq!(c.step(KeepaliveEvent::Read(ReadOutcome::Failed)), KeepaliveAction::Stop);
    let mut s = KeepaliveServer::new();
    assert_eq!(s.step(KeepaliveEvent::Read(ReadOutcome::Closed)), KeepaliveAction::Stop);
}

#[test]
fn keepalive_round_trips_count() {
    let mut c = KeepaliveClient::new();
    let mut s = KeepaliveServer::new();
    for round in 1..=3 {
        assert_eq!(c.step(KeepaliveEvent::Tick), KeepaliveAction::WritePing);
        assert_eq!(c.step(KeepaliveEvent::Written(true)), KeepaliveAction::Flush);
        assert_eq!(c.step(KeepaliveEvent::Flushed(true)), KeepaliveAction::ReadLine);
        assert_eq!(s.step(KeepaliveEvent::Read(ReadOutcome::Line(ping_message()))), KeepaliveAction::WritePong);
        assert_eq!(s.step(KeepaliveEvent::Written(true)), KeepaliveAction::Flush);
        assert_eq!(s.step(KeepaliveEvent::Flushed(true)), KeepaliveAction::ReadLine);
        assert_eq!(c.step(KeepaliveEvent::Read(ReadOutcome::Line(pong_message()))), KeepaliveAction::WaitForTick);
        assert_eq!(c.pong_count, round);
    }
    assert_eq!(ping_message(), b"PING\n");
    assert_eq!(pong_message(), b"PONG\n");
}

#[test]
fn keepalive_out_of_order_event_stops() {
    let mut c = KeepaliveClient::new();
    assert_eq!(c.step(KeepaliveEvent::Flushed(true)), KeepaliveAction::Stop);
    let mut s = KeepaliveServer::new();
    assert_eq!(s.step(KeepaliveEvent::Tick), KeepaliveAction::Stop);
}
