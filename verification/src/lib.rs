//! PortRedirect: the protocol logic of a TCP-over-QUIC port forwarder.
//!
//! The library holds what the forwarder decides and computes: which ports a
//! client may request, the PSK challenge-response authentication, the control
//! channel header, the keepalive exchange, how a finished copy is judged and
//! which incoming QUIC connections are admitted. The networking around it
//! (QUIC, TCP, TLS, timers) drives these functions from the outside.
use vstd::prelude::*;

pub mod bi_stream;
pub mod client;
pub mod forward;
pub mod metrics_helper;
pub mod protocol;
pub mod quic;
pub mod server;

verus! {

/// Protocol-wide constants.
pub struct PortRedirectProtocol;

impl PortRedirectProtocol {
    /// Seconds between two keepalive pings.
    pub const CONNECTION_KEEPALIVE_INTERVAL_SECS: u64 = 30;
    /// Seconds to wait for a keepalive reply.
    pub const CONNECTION_KEEPALIVE_READ_TIMEOUT_SECS: u64 = 30;
    /// Seconds a client has to authenticate.
    pub const AUTHENTICATION_TIMEOUT_SECS: u64 = 10;
    /// Seconds an authenticated client has to send its configuration.
    pub const CONFIGURATION_TIMEOUT_SECS: u64 = 10;
    /// Largest challenge request the server sends, in bytes.
    pub const CHALLENGE_REQUEST_BUFFER_LENGTH: usize = 256;
    /// Size of the buffers used when copying between a QUIC stream and TCP.
    pub const QUIC_STREAM_READ_BUFFER_SIZE: usize = 65536;
    /// Size of the QUIC crypto buffer.
    pub const QUIC_CRYPTO_BUFFER_SIZE: usize = 65536;
}

/// A number of bytes moved over a stream.
pub type ByteCount = u64;

} // verus!
