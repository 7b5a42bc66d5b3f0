//! Connection pool errors.

use crate::net::BackendKeyData;
#[allow(unused_imports)]
use crate::text::decimal;
use crate::text::{concat2, decimal_text, owned};
use vstd::prelude::*;
use vstd::string::*;

verus! {

/// What can go wrong when a connection is asked for or given back.
#[derive(Clone, Copy, Debug, PartialEq, Eq, Structural)]
pub enum Error {
    /// No connection came free in time.
    CheckoutTimeout,
    /// The server did not answer in time.
    ConnectTimeout,
    /// No replica had a connection in time.
    ReplicaCheckoutTimeout,
    /// The server failed.
    ServerError,
    /// An administrator banned the pool.
    ManualBan,
    /// There are no replicas.
    NoReplicas,
    /// There is no shard of this number.
    NoShard(usize),
    /// The pool is banned.
    Banned,
    /// A health check took too long.
    HealthcheckTimeout,
    /// A health check failed.
    HealthcheckError,
    /// The primary did not tell its log position.
    PrimaryLsnQueryFailed,
    /// The replica did not tell its log position.
    ReplicaLsnQueryFailed,
    /// The pool is shut down.
    Offline,
    /// There is no primary.
    NoPrimary,
    /// There are no databases.
    NoDatabases,
    /// A setting holds a null byte.
    NullBytes,
    /// No target could serve.
    AllReplicasDown,
    /// Neither the primary nor a replica could serve.
    PreferredReadUnavailable,
    /// The query could not be routed.
    Router,
    /// `LISTEN` and `NOTIFY` are off.
    PubSubDisabled,
    /// The pool is not watched.
    PoolNoHealthTarget(u64),
    /// The pool is not healthy.
    PoolUnhealthy,
    /// The pool did not hand this connection out.
    UntrackedConnCheckin(BackendKeyData),
    /// A mapping is gone.
    MappingMissing(usize),
    /// Queries could not be cancelled.
    FastShutdown,
    /// The replica is too far behind.
    ReplicaLag,
}

impl Error {
    /// The setup, an administrator or a programmer is at fault, and time will not mend it.
    pub open spec fn permanent(&self) -> bool {
        match self {
            Error::NullBytes
            | Error::NoShard(_)
            | Error::NoDatabases
            | Error::PubSubDisabled
            | Error::PoolNoHealthTarget(_)
            | Error::MappingMissing(_)
            | Error::ManualBan
            | Error::UntrackedConnCheckin(_)
            | Error::FastShutdown => true,
            _ => false,
        }
    }

    /// Transient availability fault worth retrying.
    ///
    /// Not worth retrying: configuration errors, decisions of an administrator, programming
    /// errors. Everything else is transient.
    pub fn is_retryable(&self) -> (r: bool)
        ensures
            r == !self.permanent(),
    {
        match self {
            Error::NullBytes
            | Error::NoShard(_)
            | Error::NoDatabases
            | Error::PubSubDisabled
            | Error::PoolNoHealthTarget(_)
            | Error::MappingMissing(_) => false,
            Error::ManualBan => false,
            Error::UntrackedConnCheckin(_) => false,
            Error::FastShutdown => false,
            _ => true,
        }
    }

    /// What the error says.
    pub open spec fn shown(&self) -> Seq<char> {
        match self {
            Error::CheckoutTimeout => "checkout timeout"@,
            Error::ConnectTimeout => "connect timeout"@,
            Error::ReplicaCheckoutTimeout => "replica checkout timeout"@,
            Error::ServerError => "server error"@,
            Error::ManualBan => "manual ban"@,
            Error::NoReplicas => "no replicas"@,
            Error::NoShard(n) => "no such shard: "@ + decimal(*n as nat),
            Error::Banned => "pool is banned"@,
            Error::HealthcheckTimeout => "healthcheck timeout"@,
            Error::HealthcheckError => "healthcheck error"@,
            Error::PrimaryLsnQueryFailed => "primary lsn query failed"@,
            Error::ReplicaLsnQueryFailed => "replica lsn query failed"@,
            Error::Offline => "pool is shut down"@,
            Error::NoPrimary => "no primary"@,
            Error::NoDatabases => "no databases"@,
            Error::NullBytes => "config values contain null bytes"@,
            Error::AllReplicasDown => "all replicas down"@,
            Error::PreferredReadUnavailable => "preferred read unavailable"@,
            Error::Router => "router error"@,
            Error::PubSubDisabled => "pub/sub disabled"@,
            Error::PoolNoHealthTarget(n) => "pool "@ + decimal(*n as nat)
                + " has no health target"@,
            Error::PoolUnhealthy => "pool is not healthy"@,
            Error::UntrackedConnCheckin(id) => "checked in untracked connection: "@ + id.shown(),
            Error::MappingMissing(n) => "mapping missing: "@ + decimal(*n as nat),
            Error::FastShutdown => "fast shutdown failed"@,
            Error::ReplicaLag => "replica lag"@,
        }
    }

    /// What the error says.
    pub fn to_string(&self) -> (r: String)
        ensures
            r@ == self.shown(),
    {
        match self {
            Error::CheckoutTimeout => owned("checkout timeout"),
            Error::ConnectTimeout => owned("connect timeout"),
            Error::ReplicaCheckoutTimeout => owned("replica checkout timeout"),
            Error::ServerError => owned("server error"),
            Error::ManualBan => owned("manual ban"),
            Error::NoReplicas => owned("no replicas"),
            Error::NoShard(n) => concat2("no such shard: ", decimal_text(*n as u64).as_str()),
            Error::Banned => owned("pool is banned"),
            Error::HealthcheckTimeout => owned("healthcheck timeout"),
            Error::HealthcheckError => owned("healthcheck error"),
            Error::PrimaryLsnQueryFailed => owned("primary lsn query failed"),
            Error::ReplicaLsnQueryFailed => owned("replica lsn query failed"),
            Error::Offline => owned("pool is shut down"),
            Error::NoPrimary => owned("no primary"),
            Error::NoDatabases => owned("no databases"),
            Error::NullBytes => owned("config values contain null bytes"),
            Error::AllReplicasDown => owned("all replicas down"),
            Error::PreferredReadUnavailable => owned("preferred read unavailable"),
            Error::Router => owned("router error"),
            Error::PubSubDisabled => owned("pub/sub disabled"),
            Error::PoolNoHealthTarget(n) => {
                let mut out = concat2("pool ", decimal_text(*n).as_str());
                out.append(" has no health target");
                out
            },
            Error::PoolUnhealthy => owned("pool is not healthy"),
            Error::UntrackedConnCheckin(id) => concat2(
                "checked in untracked connection: ",
                id.to_string().as_str(),
            ),
            Error::MappingMissing(n) => concat2(
                "mapping missing: ",
                decimal_text(*n as u64).as_str(),
            ),
            Error::FastShutdown => owned("fast shutdown failed"),
            Error::ReplicaLag => owned("replica lag"),
        }
    }
}

/// What time can mend is worth another attempt: whatever is down, late, banned by itself or behind.
/// What an administrator decided, what is configured wrongly and what a programmer got wrong is not.
pub proof fn transient_faults_are_retried(e: Error)
    ensures
        e == Error::CheckoutTimeout || e == Error::ConnectTimeout || e
            == Error::ReplicaCheckoutTimeout || e == Error::ServerError || e == Error::NoReplicas
            || e == Error::Banned || e == Error::HealthcheckTimeout || e == Error::HealthcheckError
            || e == Error::Offline || e == Error::NoPrimary || e == Error::AllReplicasDown || e
            == Error::PreferredReadUnavailable || e == Error::PoolUnhealthy || e
            == Error::ReplicaLag || e == Error::PrimaryLsnQueryFailed || e
            == Error::ReplicaLsnQueryFailed || e == Error::Router ==> !e.permanent(),
        e == Error::ManualBan || e == Error::NullBytes || e == Error::NoDatabases || e
            == Error::PubSubDisabled || e == Error::FastShutdown || e is NoShard || e
            is MappingMissing || e is UntrackedConnCheckin || e is PoolNoHealthTarget
            ==> e.permanent(),
{
}

} // verus!
