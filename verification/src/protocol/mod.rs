//! The PortRedirect wire protocol: authentication, control channel and keepalive.
pub mod auth;
pub mod control;
pub mod encoding;
pub mod keepalive;
pub mod utils;
