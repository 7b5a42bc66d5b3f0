//! Connections to Postgres servers.

pub mod connection;
pub mod error;
pub mod handshake;
pub mod laws;
pub mod link;
pub mod prepared;
pub mod secrets;
pub mod session;
pub mod stats;
