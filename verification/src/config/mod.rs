//! Configuration: what the files say, how it is organised for lookup and what is wrong with it.

pub mod check;
pub mod database;
pub mod error;
pub mod general;
pub mod laws;
pub mod loaded;
pub mod settings;
pub mod sharding;
pub mod users;
