//! QUIC endpoint policy.
pub mod client;
pub mod server;
