//! Pools of server connections.

pub mod ban;
pub mod cluster;
pub mod cluster_laws;
pub mod config;
pub mod connection;
pub mod error;
pub mod inner;
pub mod laws;
pub mod lb;
pub mod monitor;
pub mod pool;
pub mod pool_laws;
pub mod routing;
pub mod shard;
pub mod taken;
pub mod weighted;
