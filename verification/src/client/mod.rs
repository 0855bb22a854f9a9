//! Client-side logic.
pub mod keepalive;
pub mod run_client;
