//! Connection pooling, load balancing and sharding in front of Postgres servers.
//!
//! The library decides; it does no input or output of its own. What the network or the clock has to
//! say comes in as an argument, and what has to be sent, closed or asked next comes out as a value.
//!
//! - [`config`]: settings of databases, users and the pooler, how they are checked and looked up.
//! - [`server`]: one connection to a server, from the first message to the last.
//! - [`pool`]: connections to one server and who holds them; servers of a shard and which of them
//!   takes a query; shards of a cluster; the connections of one client.
//! - [`replication`]: tables that are carried over to another cluster, the statements that do it,
//!   and how far along they are.
//! - [`net`], [`text`], [`numbers`], [`time`]: what all of these share.

pub mod config;
pub mod net;
pub mod numbers;
pub mod pool;
pub mod replication;
pub mod server;
pub mod text;
pub mod time;
