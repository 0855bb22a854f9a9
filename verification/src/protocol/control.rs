//! The control channel: the client names the port the server should listen on.
//!
//! The message is `LISTENPORT` (10 ASCII bytes) followed by the port as two
//! big-endian bytes.
use vstd::prelude::*;
use vstd::utf8::valid_utf8;

use crate::protocol::encoding::{bytes_equal, is_valid_utf8};

verus! {

/// Length of the control message header.
pub const CONTROL_HEADER_LEN: usize = 10;

/// The client's requested configuration.
#[derive(Clone, Copy, Debug, PartialEq, Eq, Structural)]
pub struct RequestedClientConfiguration {
    pub port: u16,
}

/// Why a control message was refused.
#[derive(Clone, Copy, Debug, PartialEq, Eq, Structural)]
pub enum ControlError {
    /// The header is not valid UTF-8.
    HeaderNotUtf8,
    /// The header is not `LISTENPORT`.
    UnexpectedHeader,
}

/// `LISTENPORT`
pub open spec fn listen_header() -> Seq<u8> {
    seq![76, 73, 83, 84, 69, 78, 80, 79, 82, 84]
}

/// The verdict on a received header.
pub open spec fn spec_check_header(header: Seq<u8>) -> Result<(), ControlError> {
    if !valid_utf8(header) {
        Err(ControlError::HeaderNotUtf8)
    } else if header == listen_header() {
        Ok(())
    } else {
        Err(ControlError::UnexpectedHeader)
    }
}

/// Checks the control message header: it must be UTF-8 and read `LISTENPORT`.
pub fn check_control_header(header: &[u8]) -> (checked: Result<(), ControlError>)
    ensures
        checked == spec_check_header(header@),
{
    if !is_valid_utf8(header) {
        return Err(ControlError::HeaderNotUtf8);
    }
    let expected: Vec<u8> = vec![76, 73, 83, 84, 69, 78, 80, 79, 82, 84];
    assert(expected@ =~= listen_header());
    if bytes_equal(header, expected.as_slice()) {
        Ok(())
    } else {
        Err(ControlError::UnexpectedHeader)
    }
}

/// The port carried in two big-endian bytes, as `u16::from_be_bytes` reads it.
pub fn decode_port(port_bytes: [u8; 2]) -> (port: u16)
    ensures
        port as int == port_bytes@[0] as int * 256 + port_bytes@[1] as int,
{
    let hi = port_bytes[0] as u16;
    let lo = port_bytes[1] as u16;
    hi * 256 + lo
}

} // verus!
