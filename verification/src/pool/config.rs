//! Settings of a pool and the address of its server.

use crate::config::database::Role;
use crate::config::general::{PoolerMode, PreparedStatements};
use crate::text::same;
#[allow(unused_imports)]
use crate::text::views;
use crate::time::Duration;
use vstd::prelude::*;

verus! {

/// Settings of a pool.
#[derive(Clone, Copy, Debug, PartialEq, Eq, Structural)]
pub struct Config {
    /// Fewest connections that are kept open.
    pub min: usize,
    /// Most connections that are opened.
    pub max: usize,
    /// How long a client waits for a connection.
    pub checkout_timeout: Duration,
    /// How long a connection may stay idle.
    pub idle_timeout: Duration,
    /// How old a connection may become.
    pub max_age: Duration,
    /// How much lifetimes are spread.
    pub max_age_jitter: Duration,
    /// How long a health check may take.
    pub healthcheck_timeout: Duration,
    /// How long a health check is good for.
    pub healthcheck_interval: Duration,
    /// How long a rollback may take.
    pub rollback_timeout: Duration,
    /// How long a ban lasts.
    pub ban_timeout: Duration,
    /// How long a statement may take.
    pub statement_timeout: Option<Duration>,
    /// Statements kept prepared on a connection.
    pub prepared_statements_limit: usize,
    /// How prepared statements are handled.
    pub prepared_statements_level: PreparedStatements,
    /// When a connection goes back to the pool.
    pub pooler_mode: PoolerMode,
    /// Connections stream changes.
    pub replication_mode: bool,
    /// Transactions start read-only.
    pub read_only: bool,
    /// The pool serves resharding only.
    pub resharding_only: bool,
    /// Weight in weighted load balancing.
    pub lb_weight: u8,
}

impl Config {
    /// What holds where nothing is set.
    pub open spec fn standard() -> Config {
        Config {
            min: 1,
            max: 10,
            checkout_timeout: Duration { nanos: 5_000_000_000 },
            idle_timeout: Duration { nanos: 60_000_000_000 },
            max_age: Duration { nanos: 86_400_000_000_000 },
            max_age_jitter: Duration { nanos: 0 },
            healthcheck_timeout: Duration { nanos: 5_000_000_000 },
            healthcheck_interval: Duration { nanos: 30_000_000_000 },
            rollback_timeout: Duration { nanos: 5_000_000_000 },
            ban_timeout: Duration { nanos: 300_000_000_000 },
            statement_timeout: None,
            prepared_statements_limit: usize::MAX,
            prepared_statements_level: PreparedStatements::Extended,
            pooler_mode: PoolerMode::Transaction,
            replication_mode: false,
            read_only: false,
            resharding_only: false,
            lb_weight: 255,
        }
    }
}

impl Default for Config {
    fn default() -> (r: Self)
        ensures
            r == Config::standard(),
    {
        Config {
            min: 1,
            max: 10,
            checkout_timeout: Duration::from_millis(5_000),
            idle_timeout: Duration::from_millis(60_000),
            max_age: Duration::from_secs(86_400),
            max_age_jitter: Duration::zero(),
            healthcheck_timeout: Duration::from_millis(5_000),
            healthcheck_interval: Duration::from_millis(30_000),
            rollback_timeout: Duration::from_millis(5_000),
            ban_timeout: Duration::from_millis(300_000),
            statement_timeout: None,
            prepared_statements_limit: usize::MAX,
            prepared_statements_level: PreparedStatements::Extended,
            pooler_mode: PoolerMode::Transaction,
            replication_mode: false,
            read_only: false,
            resharding_only: false,
            lb_weight: 255,
        }
    }
}

/// Where a server is and how to log in.
#[derive(Debug)]
pub struct Address {
    /// Address or name of the machine.
    pub host: String,
    /// Port.
    pub port: u16,
    /// Database on the server.
    pub database_name: String,
    /// User to log in as.
    pub user: String,
    /// Passwords to try, in order.
    pub passwords: Vec<String>,
    /// Role that the configuration gives to the server.
    pub configured_role: Role,
    /// Number of the configuration entry.
    pub database_number: usize,
}

/// The addresses name the same server, database and user.
pub open spec fn same_address(a: Address, b: Address) -> bool {
    &&& a.host@ == b.host@
    &&& a.port == b.port
    &&& a.database_name@ == b.database_name@
    &&& a.user@ == b.user@
    &&& views(a.passwords@) == views(b.passwords@)
    &&& a.configured_role == b.configured_role
    &&& a.database_number == b.database_number
}

/// A copy of a list of texts.
pub fn clone_texts(texts: &Vec<String>) -> (r: Vec<String>)
    ensures
        r@ == texts@,
{
    let mut out: Vec<String> = Vec::new();
    for i in 0..texts.len()
        invariant
            out@ == texts@.take(i as int),
    {
        out.push(texts[i].clone());
        assert(out@ == texts@.take(i + 1));
    }
    assert(texts@.take(texts@.len() as int) == texts@);
    out
}

fn same_texts(a: &Vec<String>, b: &Vec<String>) -> (r: bool)
    ensures
        r == (views(a@) == views(b@)),
{
    if a.len() != b.len() {
        assert(views(a@).len() != views(b@).len());
        return false;
    }
    for i in 0..a.len()
        invariant
            a@.len() == b@.len(),
            forall|j: int| 0 <= j < i ==> a@[j]@ == b@[j]@,
    {
        if !same(a[i].as_str(), b[i].as_str()) {
            assert(views(a@)[i as int] != views(b@)[i as int]);
            return false;
        }
    }
    assert(views(a@) == views(b@));
    true
}

impl Address {
    /// The addresses name the same server, database and user.
    pub fn same(&self, other: &Address) -> (r: bool)
        ensures
            r == same_address(*self, *other),
    {
        same(self.host.as_str(), other.host.as_str()) && self.port == other.port && same(
            self.database_name.as_str(),
            other.database_name.as_str(),
        ) && same(self.user.as_str(), other.user.as_str()) && same_texts(
            &self.passwords,
            &other.passwords,
        ) && self.configured_role == other.configured_role && self.database_number
            == other.database_number
    }
}

impl Clone for Address {
    fn clone(&self) -> (r: Self)
        ensures
            r.host == self.host,
            r.port == self.port,
            r.database_name == self.database_name,
            r.user == self.user,
            r.passwords@ == self.passwords@,
            r.configured_role == self.configured_role,
            r.database_number == self.database_number,
            same_address(r, *self),
    {
        Address {
            host: self.host.clone(),
            port: self.port,
            database_name: self.database_name.clone(),
            user: self.user.clone(),
            passwords: clone_texts(&self.passwords),
            configured_role: self.configured_role,
            database_number: self.database_number,
        }
    }
}

impl Address {
    /// Nothing is set.
    pub open spec fn is_blank(&self) -> bool {
        &&& self.host@.len() == 0
        &&& self.port == 0
        &&& self.database_name@.len() == 0
        &&& self.user@.len() == 0
        &&& self.passwords@.len() == 0
        &&& self.configured_role == Role::Replica
        &&& self.database_number == 0
    }
}

impl Default for Address {
    fn default() -> (r: Self)
        ensures
            r.is_blank(),
    {
        Address {
            host: String::new(),
            port: 0,
            database_name: String::new(),
            user: String::new(),
            passwords: Vec::new(),
            configured_role: Role::Replica,
            database_number: 0,
        }
    }
}

/// What a pool is made from.
#[derive(Debug)]
pub struct PoolConfig {
    /// Address of the server.
    pub address: Address,
    /// Settings of the pool.
    pub config: Config,
}

impl Clone for PoolConfig {
    fn clone(&self) -> (r: Self)
        ensures
            same_address(r.address, self.address),
            r.config == self.config,
    {
        PoolConfig { address: self.address.clone(), config: self.config }
    }
}

impl Default for PoolConfig {
    fn default() -> (r: Self)
        ensures
            r.address.is_blank(),
            r.config == Config::standard(),
    {
        PoolConfig { address: Address::default(), config: Config::default() }
    }
}

} // verus!
