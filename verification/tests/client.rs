use portredirect::client::keepalive::{classify_keepalive_reply, KeepaliveReply};
use portredirect::client::run_client::ConnectionStats;

#[test]
fn keepalive_replies() {
    assert_eq!(classify_keepalive_reply(b""), KeepaliveReply::Closed);
    assert_eq!(classify_keepalive_reply(b"PONG\n"), KeepaliveReply::Pong);
    assert_eq!(classify_keepalive_reply(b"PONGPONG"), KeepaliveReply::Pong);
    assert_eq!(classify_keepalive_reply(b"PON"), KeepaliveReply::Unexpected);
    assert_eq!(classify_keepalive_reply(b"pong\n"), KeepaliveReply::Unexpected);
    assert_eq!(classify_keepalive_reply(&[0x80, 0x80]), KeepaliveReply::NotUtf8);
}

#[test]
fn connection_report_when_changed() {
    let stats = ConnectionStats { connection_count: 3 };
    assert!(stats.should_report(0, false));
    assert!(stats.should_report(2, true));
    assert!(!stats.should_report(3, true));
    assert!(stats.should_report(3, false));
}
