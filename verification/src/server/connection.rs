//! A connection to a Postgres server: what is known of it and how messages change that.

use crate::config::general::PoolerMode;
use crate::net::{BackendKeyData, Parameter, Parameters};
use crate::pool::config::Address;
use crate::server::prepared::PreparedStatements;
use crate::server::stats::{State, Stats};
use crate::text::{owned, same};
#[allow(unused_imports)]
use crate::time::{MAX_NANOS, NANOS_PER_MILLI};
use crate::time::{Duration, Instant};
use rand::Rng;
use vstd::prelude::*;

verus! {

/// Why a connection was closed.
#[derive(Clone, Copy, Debug, PartialEq, Eq, Structural)]
pub enum DisconnectReason {
    /// It was idle for too long.
    Idle,
    /// It was too old.
    Old,
    /// It was broken.
    Error,
    /// Its pool went offline.
    Offline,
    /// It was in the middle of something that could not be finished.
    ForceClose,
    /// It streamed changes.
    ReplicationMode,
    /// It did not agree with the pooler on what comes next.
    OutOfSync,
    /// A health check failed.
    Unhealthy,
    /// Anything else.
    Other,
}

impl Default for DisconnectReason {
    fn default() -> (r: Self)
        ensures
            r == DisconnectReason::Other,
    {
        DisconnectReason::Other
    }
}

/// Why a connection was made.
#[derive(Clone, Copy, Debug, PartialEq, Eq, Structural)]
pub enum ConnectReason {
    /// A client waits.
    ClientWaiting,
    /// The pool has fewer connections than it should.
    BelowMin,
    /// Changes are to be streamed.
    Replication,
    /// Anything else.
    Other,
}

impl ConnectReason {
    /// How the reason reads.
    pub open spec fn shown(&self) -> Seq<char> {
        match self {
            ConnectReason::ClientWaiting => "client waiting"@,
            ConnectReason::BelowMin => "below min"@,
            ConnectReason::Replication => "replication"@,
            ConnectReason::Other => "other"@,
        }
    }

    /// How the reason reads.
    pub fn to_string(&self) -> (r: String)
        ensures
            r@ == self.shown(),
    {
        match self {
            ConnectReason::ClientWaiting => owned("client waiting"),
            ConnectReason::BelowMin => owned("below min"),
            ConnectReason::Replication => owned("replication"),
            ConnectReason::Other => owned("other"),
        }
    }
}

/// What is asked of a server when a connection is made.
#[derive(Debug)]
pub struct ServerOptions {
    /// Settings of the session.
    pub params: Vec<Parameter>,
    /// Pool that the connection is for.
    pub pool_id: u64,
}

/// The session is to stream changes.
pub open spec fn asks_replication(params: Seq<Parameter>) -> bool {
    exists|i: int|
        0 <= i < params.len() && (#[trigger] params[i]).name@ == "replication"@ && params[i].value@
            == "database"@
}

impl ServerOptions {
    /// The session is to stream changes.
    pub fn replication_mode(&self) -> (r: bool)
        ensures
            r == asks_replication(self.params@),
    {
        for i in 0..self.params.len()
            invariant
                forall|j: int|
                    0 <= j < i ==> !((#[trigger] self.params@[j]).name@ == "replication"@
                        && self.params@[j].value@ == "database"@),
        {
            if same(self.params[i].name.as_str(), "replication") && same(
                self.params[i].value.as_str(),
                "database",
            ) {
                return true;
            }
        }
        false
    }
}

/// The network end of a connection.
#[derive(Clone, Copy, Debug, PartialEq, Eq, Structural)]
pub struct StreamState {
    /// A message was sent or received in part only.
    pub io_in_progress: bool,
    /// Bytes that its buffers take.
    pub memory_usage: usize,
}

/// Bytes that a connection takes.
#[derive(Clone, Copy, Debug, PartialEq, Eq, Structural)]
pub struct MemoryStats {
    /// Buffer of messages.
    pub buffer: usize,
    /// Prepared statements.
    pub prepared_statements: usize,
    /// Network stream.
    pub stream: usize,
}

/// A connection to a Postgres server.
#[derive(Debug)]
pub struct Server {
    /// Where the server is.
    pub addr: Address,
    /// The network end, if the connection is open.
    pub stream: Option<StreamState>,
    /// Identifier of the connection.
    pub id: BackendKeyData,
    /// Settings that the server announced at the start.
    pub params: Parameters,
    /// Settings that the server announced since a client was linked.
    pub changed_params: Parameters,
    /// Settings that were made for the last client.
    pub client_params: Parameters,
    /// Statistics.
    pub stats: Stats,
    /// Prepared statements.
    pub prepared_statements: PreparedStatements,
    /// The client changed the session in a way that has to be undone.
    pub dirty: bool,
    /// The server streams changes.
    pub streaming: bool,
    /// Prepared statements do not fit the schema any more.
    pub schema_changed: bool,
    /// Statements were prepared without the pooler's doing.
    pub sync_prepared: bool,
    /// The server is inside of a transaction.
    pub in_transaction: bool,
    /// The connection was drained.
    pub re_synced: bool,
    /// The connection is for streaming changes.
    pub replication_mode: bool,
    /// A statement was executed and the server is not ready for another one.
    pub statement_executed: bool,
    /// A request is on its way.
    pub sending_request: bool,
    /// When the connection goes back to the pool.
    pub pooler_mode: PoolerMode,
    /// Bytes that the message buffer takes.
    pub stream_buffer: usize,
    /// Why the connection is closed.
    pub disconnect_reason: Option<DisconnectReason>,
    /// Passwords tried until the server let the connection in.
    pub password_attempts: usize,
    /// How old this connection may become, the pool's setting if not set.
    pub max_age: Option<Duration>,
}

/// `rand::Rng::random_range` of the thread's generator on an inclusive range: some number between
/// the two, both included.
#[verifier::external_body]
fn random_between(low: i64, high: i64) -> (r: i64)
    requires
        low <= high,
    ensures
        low <= r <= high,
{
    rand::rng().random_range(low..=high)
}

/// The lifetime that an offset in milliseconds makes of a base lifetime.
pub open spec fn jittered(base: Duration, offset_ms: int) -> int {
    let sum = base.nanos + offset_ms * NANOS_PER_MILLI;
    if sum < 0 {
        0
    } else if sum > MAX_NANOS {
        MAX_NANOS as int
    } else {
        sum
    }
}

/// `after` is `before` once its transaction was rolled back or committed.
pub open spec fn transaction_over(before: Server, after: Server, rollback: bool) -> bool {
    &&& after == (Server { client_params: after.client_params, ..before })
    &&& after.client_params.transaction@.len() == 0
    &&& rollback ==> after.client_params.params == before.client_params.params
    &&& !rollback ==> forall|n: Seq<char>| #[trigger]
        after.client_params.value(n) == match before.client_params.pending(n) {
            Some(v) => Some(v),
            None => before.client_params.value(n),
        }
}

impl Server {
    /// The settings are kept without repeats.
    pub open spec fn wf(&self) -> bool {
        &&& self.params.wf()
        &&& self.changed_params.wf()
        &&& self.client_params.wf()
        &&& self.prepared_statements.wf()
    }

    /// The connection is between queries.
    pub open spec fn synced(&self) -> bool {
        self.stats.state == State::Idle || self.stats.state == State::IdleInTransaction
            || self.stats.state == State::TransactionError
    }

    /// A message was sent or received in part only.
    pub open spec fn io_pending(&self) -> bool {
        match self.stream {
            Some(stream) => stream.io_in_progress,
            None => false,
        }
    }

    /// The connection has to be closed without any recovery.
    pub open spec fn must_close(&self) -> bool {
        self.stats.state == State::ForceClose || self.io_pending()
    }

    /// How long it has been since the last health check, forever if there was none.
    pub open spec fn unchecked_for(&self, instant: Instant) -> nat {
        match self.stats.last_healthcheck {
            Some(last) => instant.since(last),
            None => MAX_NANOS as nat,
        }
    }

    /// How old the connection may become, given the pool's setting.
    pub open spec fn lifetime(&self, base: Duration) -> Duration {
        match self.max_age {
            Some(max_age) => max_age,
            None => base,
        }
    }

    /// The connection was just made: it is between queries, nothing was done on it, and nothing is
    /// set or prepared. What the server announced is not part of this.
    pub open spec fn is_new(
        &self,
        addr: Address,
        id: BackendKeyData,
        replication_mode: bool,
        pool_id: u64,
        now: Instant,
    ) -> bool {
        &&& *self == (Server {
            addr,
            stream: Some(StreamState { io_in_progress: false, memory_usage: 0 }),
            id,
            params: self.params,
            changed_params: self.changed_params,
            client_params: self.client_params,
            stats: self.stats,
            prepared_statements: self.prepared_statements,
            dirty: false,
            streaming: false,
            schema_changed: false,
            sync_prepared: false,
            in_transaction: false,
            re_synced: false,
            replication_mode,
            statement_executed: false,
            sending_request: false,
            pooler_mode: PoolerMode::Transaction,
            stream_buffer: 0,
            disconnect_reason: None,
            password_attempts: 1,
            max_age: None,
        })
        &&& self.changed_params.cleared()
        &&& self.client_params.cleared()
        &&& self.stats.is_new(now, pool_id)
        &&& self.prepared_statements.is_new()
    }

    /// Nothing more is expected from the server, and the connection is not inside of a transaction.
    pub open spec fn is_done(&self) -> bool {
        self.prepared_statements.done && !self.in_transaction && !self.statement_executed
    }

    /// A connection that was just made.
    pub fn new(
        addr: Address,
        id: BackendKeyData,
        params: Parameters,
        options: &ServerOptions,
        now: Instant,
    ) -> (r: Self)
        requires
            params.wf(),
        ensures
            r.is_new(addr, id, asks_replication(options.params@), options.pool_id, now),
            r.params == params,
            r.wf(),
    {
        Server {
            addr,
            stream: Some(StreamState { io_in_progress: false, memory_usage: 0 }),
            id,
            stats: Stats::connect(now, options.pool_id),
            replication_mode: options.replication_mode(),
            params,
            changed_params: Parameters::new(),
            client_params: Parameters::new(),
            prepared_statements: PreparedStatements::new(),
            dirty: false,
            streaming: false,
            schema_changed: false,
            sync_prepared: false,
            in_transaction: false,
            statement_executed: false,
            re_synced: false,
            sending_request: false,
            pooler_mode: PoolerMode::Transaction,
            stream_buffer: 0,
            disconnect_reason: None,
            password_attempts: 1,
            max_age: None,
        }
    }

    /// The end of a transaction decides what becomes of the settings that it made.
    pub fn transaction_params_hook(&mut self, rollback: bool)
        requires
            old(self).wf(),
        ensures
            final(self).wf(),
            transaction_over(*old(self), *final(self), rollback),
    {
        if rollback {
            self.client_params.rollback();
        } else {
            self.client_params.commit();
        }
    }

    /// Settings that the server announced since a client was linked.
    pub fn changed_params(&self) -> (r: &Parameters)
        ensures
            *r == self.changed_params,
    {
        &self.changed_params
    }

    /// Forget settings that the server announced.
    pub fn reset_changed_params(&mut self)
        requires
            old(self).wf(),
        ensures
            final(self).wf(),
            *final(self) == (Server { changed_params: final(self).changed_params, ..*old(self) }),
            final(self).changed_params.cleared(),
    {
        self.changed_params.clear();
    }

    /// The connection can be given back: nothing more is expected from the server and it is not
    /// inside of a transaction.
    pub fn done(&self) -> (r: bool)
        ensures
            r == self.is_done(),
    {
        self.prepared_statements.done() && !self.in_transaction() && !self.statement_executed
    }

    /// A message was sent or received in part only.
    pub fn io_in_progress(&self) -> (r: bool)
        ensures
            r == self.io_pending(),
    {
        match self.stream {
            Some(stream) => stream.io_in_progress,
            None => false,
        }
    }

    /// The server can execute a query.
    pub fn in_sync(&self) -> (r: bool)
        ensures
            r == self.synced(),
    {
        match self.stats.get_state() {
            State::Idle | State::IdleInTransaction | State::TransactionError => true,
            _ => false,
        }
    }

    /// The server has executed all queries and is not inside of a transaction.
    pub fn can_check_in(&self) -> (r: bool)
        ensures
            r == (self.stats.state == State::Idle),
    {
        self.stats.get_state() == State::Idle
    }

    /// The server has not sent all messages yet.
    pub fn has_more_messages(&self) -> (r: bool)
        ensures
            r == (self.prepared_statements.more_messages || self.streaming),
    {
        self.prepared_statements.has_more_messages() || self.streaming
    }

    /// Rows are being copied to the server.
    pub fn in_copy_mode(&self) -> (r: bool)
        ensures
            r == self.prepared_statements.copy_mode,
    {
        self.prepared_statements.in_copy_mode()
    }

    /// An error broke off the extended protocol.
    pub fn out_of_sync(&self) -> (r: bool)
        ensures
            r == self.prepared_statements.out_of_sync,
    {
        self.prepared_statements.out_of_sync()
    }

    /// The server is inside of a transaction.
    pub fn in_transaction(&self) -> (r: bool)
        ensures
            r == self.in_transaction,
    {
        self.in_transaction
    }

    /// The connection is broken for good.
    pub fn error(&self) -> (r: bool)
        ensures
            r == (self.stats.state == State::Error),
    {
        self.stats.get_state() == State::Error
    }

    /// Prepared statements do not fit the schema any more.
    pub fn schema_changed(&self) -> (r: bool)
        ensures
            r == self.schema_changed,
    {
        self.schema_changed
    }

    /// Statements were prepared without the pooler's doing and have to be looked up.
    pub fn sync_prepared(&self) -> (r: bool)
        ensures
            r == self.sync_prepared,
    {
        self.sync_prepared
    }

    /// The connection was left in the middle of a query.
    pub fn needs_drain(&self) -> (r: bool)
        ensures
            r == !self.synced(),
    {
        !self.in_sync()
    }

    /// A request is on its way.
    pub fn sending_request(&self) -> (r: bool)
        ensures
            r == self.sending_request,
    {
        self.sending_request
    }

    /// The connection has to be closed without any recovery.
    pub fn force_close(&self) -> (r: bool)
        ensures
            r == self.must_close(),
    {
        self.stats.get_state() == State::ForceClose || self.io_in_progress()
    }

    /// Settings that the server announced at the start.
    pub fn params(&self) -> (r: &Parameters)
        ensures
            *r == self.params,
    {
        &self.params
    }

    /// Prepared statements fit the schema again, because there are none.
    pub fn reset_schema_changed(&mut self)
        requires
            old(self).wf(),
        ensures
            final(self).wf(),
            *final(self) == (Server {
                schema_changed: false,
                prepared_statements: final(self).prepared_statements,
                ..*old(self)
            }),
            final(self).prepared_statements == (PreparedStatements {
                names: final(self).prepared_statements.names,
                ..old(self).prepared_statements
            }),
            final(self).prepared_statements.names@.len() == 0,
    {
        self.schema_changed = false;
        self.prepared_statements.clear();
    }

    /// Forget settings that were made for a client.
    pub fn reset_params(&mut self)
        requires
            old(self).wf(),
        ensures
            final(self).wf(),
            *final(self) == (Server { client_params: final(self).client_params, ..*old(self) }),
            final(self).client_params.cleared(),
    {
        self.client_params.clear();
    }

    /// Forget that the connection was drained.
    pub fn reset_re_synced(&mut self)
        ensures
            *final(self) == (Server { re_synced: false, ..*old(self) }),
    {
        self.re_synced = false;
    }

    /// The connection was drained.
    pub fn re_synced(&self) -> (r: bool)
        ensures
            r == self.re_synced,
    {
        self.re_synced
    }

    /// Say why the connection is closed. The first reason counts.
    pub fn disconnect_reason(&mut self, reason: DisconnectReason)
        ensures
            *final(self) == (Server {
                disconnect_reason: match old(self).disconnect_reason {
                    Some(first) => Some(first),
                    None => Some(reason),
                },
                ..*old(self)
            }),
    {
        if self.disconnect_reason.is_none() {
            self.disconnect_reason = Some(reason);
        }
    }

    /// Identifier of the connection.
    pub fn id(&self) -> (r: &BackendKeyData)
        ensures
            *r == self.id,
    {
        &self.id
    }

    /// Passwords tried until the server let the connection in.
    pub fn password_attempts(&self) -> (r: usize)
        ensures
            r == self.password_attempts,
    {
        self.password_attempts
    }

    /// How old the connection is.
    pub fn age(&self, instant: Instant) -> (r: Duration)
        ensures
            r.nanos == instant.since(self.stats.created_at),
    {
        instant.duration_since(self.stats.created_at())
    }

    /// Set how old the connection may become.
    pub fn set_max_age(&mut self, max_age: Duration)
        ensures
            *final(self) == (Server { max_age: Some(max_age), ..*old(self) }),
    {
        self.max_age = Some(max_age);
    }

    /// Let the connection become as old as the offset makes of the base lifetime.
    pub fn set_jittered_age(&mut self, base: Duration, offset_ms: i64)
        requires
            base.wf(),
        ensures
            *final(self) == (Server { max_age: final(self).max_age, ..*old(self) }),
            final(self).max_age matches Some(age) && age.nanos == jittered(base, offset_ms as int),
    {
        let magnitude: u64 = if offset_ms >= 0 {
            offset_ms as u64
        } else {
            (-(offset_ms as i128)) as u64
        };
        let offset = Duration::from_millis(magnitude);
        let age = if offset_ms >= 0 {
            base.saturating_add(offset)
        } else {
            base.saturating_sub(offset)
        };
        self.max_age = Some(age);
    }

    /// Let the connection become a random age between `jitter` less and `jitter` more than the
    /// base lifetime, in steps of a millisecond, so that connections made together do not end
    /// together. Without jitter nothing changes.
    pub fn apply_lifetime_jitter(&mut self, base: Duration, jitter: Duration)
        requires
            base.wf(),
            jitter.nanos / NANOS_PER_MILLI <= i64::MAX,
        ensures
            jitter.nanos == 0 ==> *final(self) == *old(self),
            jitter.nanos > 0 ==> {
                &&& *final(self) == (Server { max_age: final(self).max_age, ..*old(self) })
                &&& exists|offset_ms: int|
                    -(jitter.nanos / NANOS_PER_MILLI) <= offset_ms <= jitter.nanos
                        / NANOS_PER_MILLI && final(self).max_age == Some(
                        Duration { nanos: #[trigger] jittered(base, offset_ms) as u128 },
                    )
                &&& final(self).max_age matches Some(age) && base.nanos - jitter.nanos <= age.nanos
                    <= base.nanos + jitter.nanos
            },
    {
        if jitter.is_zero() {
            return ;
        }
        let jitter_ms: i64 = jitter.as_millis() as i64;
        let offset_ms: i64 = random_between(-jitter_ms, jitter_ms);
        self.set_jittered_age(base, offset_ms);
        proof {
            let ms = jitter.nanos / NANOS_PER_MILLI;
            assert(ms * NANOS_PER_MILLI <= jitter.nanos);
            assert(-ms * NANOS_PER_MILLI <= offset_ms * NANOS_PER_MILLI <= ms * NANOS_PER_MILLI);
        }
    }

    /// How old the connection may become, given the pool's setting.
    pub fn effective_max_age(&self, base: Duration) -> (r: Duration)
        ensures
            r == self.lifetime(base),
    {
        match self.max_age {
            Some(max_age) => max_age,
            None => base,
        }
    }

    /// How long the connection has been idle.
    pub fn idle_for(&self, instant: Instant) -> (r: Duration)
        ensures
            r.nanos == instant.since(self.stats.last_used),
    {
        instant.duration_since(self.stats.last_used())
    }

    /// How long it has been since the last health check, forever if there was none.
    pub fn healthcheck_age(&self, instant: Instant) -> (r: Duration)
        ensures
            r.nanos == self.unchecked_for(instant),
    {
        match self.stats.last_healthcheck() {
            Some(last) => instant.duration_since(last),
            None => Duration::longest(),
        }
    }

    /// Where the server is.
    pub fn addr(&self) -> (r: &Address)
        ensures
            *r == self.addr,
    {
        &self.addr
    }

    /// The client changed the session in a way that has to be undone.
    pub fn dirty(&self) -> (r: bool)
        ensures
            r == self.dirty,
    {
        self.dirty
    }

    /// Set whether the session has to be cleaned.
    pub fn mark_dirty(&mut self, dirty: bool)
        ensures
            *final(self) == (Server { dirty, ..*old(self) }),
    {
        self.dirty = dirty;
    }

    /// The session has been cleaned.
    pub fn cleaned(&mut self)
        ensures
            *final(self) == (Server {
                dirty: false,
                stats: old(self).stats.with_cleaned(),
                ..*old(self)
            }),
    {
        self.dirty = false;
        self.stats.cleaned();
    }

    /// The server streams changes.
    pub fn streaming(&self) -> (r: bool)
        ensures
            r == self.streaming,
    {
        self.streaming
    }

    /// Statistics.
    pub fn stats(&self) -> (r: &Stats)
        ensures
            *r == self.stats,
    {
        &self.stats
    }

    /// Statistics, to be changed.
    pub fn stats_mut(&mut self) -> (r: &mut Stats)
        ensures
            *r == old(self).stats,
            *final(self) == (Server { stats: *final(r), ..*old(self) }),
    {
        &mut self.stats
    }

    /// Set when the connection goes back to the pool.
    pub fn set_pooler_mode(&mut self, pooler_mode: PoolerMode)
        ensures
            *final(self) == (Server { pooler_mode, ..*old(self) }),
    {
        self.pooler_mode = pooler_mode;
    }

    /// When the connection goes back to the pool.
    pub fn pooler_mode(&self) -> (r: &PoolerMode)
        ensures
            *r == self.pooler_mode,
    {
        &self.pooler_mode
    }

    /// The connection is for streaming changes.
    pub fn replication_mode(&self) -> (r: bool)
        ensures
            r == self.replication_mode,
    {
        self.replication_mode
    }

    /// Prepared statements, to be changed.
    pub fn prepared_statements_mut(&mut self) -> (r: &mut PreparedStatements)
        ensures
            *r == old(self).prepared_statements,
            *final(self) == (Server { prepared_statements: *final(r), ..*old(self) }),
    {
        &mut self.prepared_statements
    }

    /// Prepared statements.
    pub fn prepared_statements(&self) -> (r: &PreparedStatements)
        ensures
            *r == self.prepared_statements,
    {
        &self.prepared_statements
    }

    /// Bytes that the connection takes.
    pub fn memory_stats(&self) -> (r: MemoryStats)
        ensures
            r == (MemoryStats {
                buffer: self.stream_buffer,
                prepared_statements: self.prepared_statements.memory_used,
                stream: match self.stream {
                    Some(stream) => stream.memory_usage,
                    None => 0,
                },
            }),
    {
        MemoryStats {
            buffer: self.stream_buffer,
            prepared_statements: self.prepared_statements.memory_used(),
            stream: match self.stream {
                Some(stream) => stream.memory_usage,
                None => 0,
            },
        }
    }
}

impl Default for Server {
    fn default() -> (r: Self)
        ensures
            r.wf(),
            r.params.cleared(),
            r.addr.is_blank(),
            r.stream is None,
            (Server {
                stream: Some(StreamState { io_in_progress: false, memory_usage: 0 }),
                ..r
            }).is_new(
                r.addr,
                BackendKeyData { pid: 0, secret: 0 },
                false,
                0,
                Instant { nanos: 0 },
            ),
    {
        let options = ServerOptions { params: Vec::new(), pool_id: 0 };
        let mut server = Server::new(
            Address::default(),
            BackendKeyData::default(),
            Parameters::new(),
            &options,
            Instant::default(),
        );
        server.stream = None;
        server
    }
}

/// The jitter of a lifetime never leaves the span around the base lifetime.
pub proof fn jitter_stays_in_bounds(base: Duration, offset_ms: int, jitter_ms: int)
    requires
        base.wf(),
        -jitter_ms <= offset_ms <= jitter_ms,
    ensures
        jittered(base, offset_ms) >= 0,
        base.nanos - jitter_ms * NANOS_PER_MILLI <= jittered(base, offset_ms) <= base.nanos
            + jitter_ms * NANOS_PER_MILLI,
        offset_ms == 0 ==> jittered(base, offset_ms) == base.nanos,
        base.nanos + offset_ms * NANOS_PER_MILLI < 0 ==> jittered(base, offset_ms) == 0,
{
}

} // verus!
