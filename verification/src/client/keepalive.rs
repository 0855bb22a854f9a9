//! The client's simple keepalive loop: how it judges a reply to `PING`.
use vstd::prelude::*;
use vstd::utf8::valid_utf8;

use crate::protocol::encoding::{bytes_start_with, is_valid_utf8, starts_with};

verus! {

/// `PONG`
pub open spec fn pong_prefix() -> Seq<u8> {
    seq![80, 79, 78, 71]
}

/// How the client's simple keepalive loop judges what it read after a `PING`.
#[derive(Clone, Copy, Debug, PartialEq, Eq, Structural)]
pub enum KeepaliveReply {
    /// Zero bytes: the peer closed the stream.
    Closed,
    /// The bytes are not valid UTF-8.
    NotUtf8,
    /// The reply starts with `PONG`.
    Pong,
    /// Any other reply.
    Unexpected,
}

/// Judges the bytes read after a `PING` in the client's simple keepalive loop.
pub fn classify_keepalive_reply(reply: &[u8]) -> (kind: KeepaliveReply)
    ensures
        kind == if reply@.len() == 0 {
            KeepaliveReply::Closed
        } else if !valid_utf8(reply@) {
            KeepaliveReply::NotUtf8
        } else if starts_with(reply@, pong_prefix()) {
            KeepaliveReply::Pong
        } else {
            KeepaliveReply::Unexpected
        },
{
    if reply.len() == 0 {
        return KeepaliveReply::Closed;
    }
    if !is_valid_utf8(reply) {
        return KeepaliveReply::NotUtf8;
    }
    let pong: Vec<u8> = vec![80, 79, 78, 71];
    assert(pong@ =~= pong_prefix());
    if bytes_start_with(reply, pong.as_slice()) {
        KeepaliveReply::Pong
    } else {
        KeepaliveReply::Unexpected
    }
}

} // verus!
