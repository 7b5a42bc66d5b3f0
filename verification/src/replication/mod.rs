//! Logical replication: what is published, the statements that carry changes over, and how far
//! along everything is.

pub mod columns;
pub mod error;
pub mod laws;
pub mod queries;
pub mod status;
pub mod sync;
pub mod table;
