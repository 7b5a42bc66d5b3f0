//! Statistics of a server connection, and what it is doing.

use crate::net::BackendKeyData;
use crate::text::owned;
use crate::time::{Duration, Instant};
use vstd::prelude::*;

verus! {

/// What a connection is doing.
#[derive(Clone, Copy, Debug, PartialEq, Eq, Structural)]
pub enum State {
    /// Waiting for a query.
    Idle,
    /// Receiving a query.
    Active,
    /// Waiting for a query inside of a transaction.
    IdleInTransaction,
    /// Waiting for the end of a failed transaction.
    TransactionError,
    /// Answering a query.
    ReceivingData,
    /// Taking in rows.
    CopyMode,
    /// Broken for good.
    Error,
    /// About to be closed by the server.
    ForceClose,
}

/// What happened on a connection.
#[derive(Clone, Copy, Debug, PartialEq, Eq, Structural)]
pub struct Counts {
    /// Queries answered.
    pub queries: usize,
    /// Transactions ended or failed.
    pub transactions: usize,
    /// Transactions rolled back by the pooler.
    pub rollbacks: usize,
    /// Errors reported by the server.
    pub errors: usize,
    /// Health checks made.
    pub healthchecks: usize,
    /// Statements prepared.
    pub parse: usize,
    /// Portals bound.
    pub bind: usize,
    /// Prepared statements closed.
    pub close: usize,
    /// Sessions cleaned.
    pub cleaned: usize,
    /// Bytes sent to the server.
    pub bytes_sent: usize,
    /// Bytes received from the server.
    pub bytes_received: usize,
}

/// A counter after `n` more; it stops at the largest number.
pub open spec fn counted(counter: usize, n: usize) -> usize {
    if counter + n <= usize::MAX {
        (counter + n) as usize
    } else {
        usize::MAX
    }
}

impl Counts {
    /// Nothing happened.
    pub open spec fn none(&self) -> bool {
        &&& self.queries == 0
        &&& self.transactions == 0
        &&& self.rollbacks == 0
        &&& self.errors == 0
        &&& self.healthchecks == 0
        &&& self.parse == 0
        &&& self.bind == 0
        &&& self.close == 0
        &&& self.cleaned == 0
        &&& self.bytes_sent == 0
        &&& self.bytes_received == 0
    }
}

impl Default for Counts {
    fn default() -> (r: Self)
        ensures
            r.none(),
    {
        Counts {
            queries: 0,
            transactions: 0,
            rollbacks: 0,
            errors: 0,
            healthchecks: 0,
            parse: 0,
            bind: 0,
            close: 0,
            cleaned: 0,
            bytes_sent: 0,
            bytes_received: 0,
        }
    }
}

/// Statistics of a server connection.
#[derive(Debug)]
pub struct Stats {
    /// What the connection is doing.
    pub state: State,
    /// When it was made.
    pub created_at: Instant,
    /// When its last transaction ended.
    pub last_used: Instant,
    /// When it was last checked.
    pub last_healthcheck: Option<Instant>,
    /// Pool that it belongs to.
    pub pool_id: u64,
    /// Client that it serves.
    pub client_id: Option<BackendKeyData>,
    /// Name of the client's application.
    pub application_name: String,
    /// Statements prepared on it.
    pub prepared_statements: usize,
    /// What happened since it was made.
    pub total: Counts,
    /// What happened since it was last checked out.
    pub last_checkout: Counts,
}

impl Stats {
    /// Nothing was done on the connection yet.
    pub open spec fn is_new(&self, now: Instant, pool_id: u64) -> bool {
        &&& self.state == State::Idle
        &&& self.created_at == now
        &&& self.last_used == now
        &&& self.last_healthcheck is None
        &&& self.pool_id == pool_id
        &&& self.client_id is None
        &&& self.application_name@.len() == 0
        &&& self.prepared_statements == 0
        &&& self.total.none()
        &&& self.last_checkout.none()
    }

    /// The statistics in another state.
    pub open spec fn in_state(self, state: State) -> Stats {
        Stats { state, ..self }
    }

    /// A query was answered.
    pub open spec fn with_query(self) -> Stats {
        Stats {
            total: Counts { queries: counted(self.total.queries, 1), ..self.total },
            last_checkout: Counts {
                queries: counted(self.last_checkout.queries, 1),
                ..self.last_checkout
            },
            ..self
        }
    }

    /// A transaction ended or failed.
    pub open spec fn with_transaction(self, now: Instant, state: State) -> Stats {
        Stats {
            state,
            last_used: now,
            total: Counts { transactions: counted(self.total.transactions, 1), ..self.total },
            last_checkout: Counts {
                transactions: counted(self.last_checkout.transactions, 1),
                ..self.last_checkout
            },
            ..self
        }
    }

    /// The server reported an error.
    pub open spec fn with_error(self) -> Stats {
        Stats {
            total: Counts { errors: counted(self.total.errors, 1), ..self.total },
            last_checkout: Counts {
                errors: counted(self.last_checkout.errors, 1),
                ..self.last_checkout
            },
            ..self
        }
    }

    /// So many bytes were received.
    pub open spec fn with_received(self, bytes: usize) -> Stats {
        Stats {
            total: Counts {
                bytes_received: counted(self.total.bytes_received, bytes),
                ..self.total
            },
            last_checkout: Counts {
                bytes_received: counted(self.last_checkout.bytes_received, bytes),
                ..self.last_checkout
            },
            ..self
        }
    }

    /// So many bytes were sent.
    pub open spec fn with_sent(self, bytes: usize) -> Stats {
        Stats {
            total: Counts { bytes_sent: counted(self.total.bytes_sent, bytes), ..self.total },
            last_checkout: Counts {
                bytes_sent: counted(self.last_checkout.bytes_sent, bytes),
                ..self.last_checkout
            },
            ..self
        }
    }

    /// A statement was prepared.
    pub open spec fn with_parse(self) -> Stats {
        Stats {
            total: Counts { parse: counted(self.total.parse, 1), ..self.total },
            last_checkout: Counts {
                parse: counted(self.last_checkout.parse, 1),
                ..self.last_checkout
            },
            ..self
        }
    }

    /// A portal was bound.
    pub open spec fn with_bind(self) -> Stats {
        Stats {
            total: Counts { bind: counted(self.total.bind, 1), ..self.total },
            last_checkout: Counts {
                bind: counted(self.last_checkout.bind, 1),
                ..self.last_checkout
            },
            ..self
        }
    }

    /// The pooler rolled a transaction back.
    pub open spec fn with_rollback(self) -> Stats {
        Stats {
            total: Counts { rollbacks: counted(self.total.rollbacks, 1), ..self.total },
            last_checkout: Counts {
                rollbacks: counted(self.last_checkout.rollbacks, 1),
                ..self.last_checkout
            },
            ..self
        }
    }

    /// The connection was checked.
    pub open spec fn with_healthcheck(self, now: Instant) -> Stats {
        Stats {
            last_healthcheck: Some(now),
            total: Counts { healthchecks: counted(self.total.healthchecks, 1), ..self.total },
            last_checkout: Counts {
                healthchecks: counted(self.last_checkout.healthchecks, 1),
                ..self.last_checkout
            },
            ..self
        }
    }

    /// So many prepared statements were closed.
    pub open spec fn with_closed(self, n: usize, left: usize) -> Stats {
        Stats {
            prepared_statements: left,
            total: Counts { close: counted(self.total.close, n), ..self.total },
            last_checkout: Counts {
                close: counted(self.last_checkout.close, n),
                ..self.last_checkout
            },
            ..self
        }
    }

    /// The session was cleaned.
    pub open spec fn with_cleaned(self) -> Stats {
        Stats {
            total: Counts { cleaned: counted(self.total.cleaned, 1), ..self.total },
            last_checkout: Counts {
                cleaned: counted(self.last_checkout.cleaned, 1),
                ..self.last_checkout
            },
            ..self
        }
    }

    /// Statistics of a connection made now.
    pub fn connect(now: Instant, pool_id: u64) -> (r: Self)
        ensures
            r.is_new(now, pool_id),
    {
        Stats {
            state: State::Idle,
            created_at: now,
            last_used: now,
            last_healthcheck: None,
            pool_id,
            client_id: None,
            application_name: String::new(),
            prepared_statements: 0,
            total: Counts::default(),
            last_checkout: Counts::default(),
        }
    }

    /// What the connection is doing.
    pub fn get_state(&self) -> (r: State)
        ensures
            r == self.state,
    {
        self.state
    }

    /// Change what the connection is doing.
    pub fn state(&mut self, state: State)
        ensures
            *final(self) == old(self).in_state(state),
    {
        self.state = state;
    }

    /// Count a query.
    pub fn query(&mut self)
        ensures
            *final(self) == old(self).with_query(),
    {
        self.total.queries = self.total.queries.saturating_add(1);
        self.last_checkout.queries = self.last_checkout.queries.saturating_add(1);
    }

    /// Count a transaction that ended.
    pub fn transaction(&mut self, now: Instant)
        ensures
            *final(self) == old(self).with_transaction(now, State::Idle),
    {
        self.state = State::Idle;
        self.last_used = now;
        self.total.transactions = self.total.transactions.saturating_add(1);
        self.last_checkout.transactions = self.last_checkout.transactions.saturating_add(1);
    }

    /// Count a transaction that failed.
    pub fn transaction_error(&mut self, now: Instant)
        ensures
            *final(self) == old(self).with_transaction(now, State::TransactionError),
    {
        self.state = State::TransactionError;
        self.last_used = now;
        self.total.transactions = self.total.transactions.saturating_add(1);
        self.last_checkout.transactions = self.last_checkout.transactions.saturating_add(1);
    }

    /// Count an error.
    pub fn error(&mut self)
        ensures
            *final(self) == old(self).with_error(),
    {
        self.total.errors = self.total.errors.saturating_add(1);
        self.last_checkout.errors = self.last_checkout.errors.saturating_add(1);
    }

    /// Count bytes received.
    pub fn receive(&mut self, bytes: usize)
        ensures
            *final(self) == old(self).with_received(bytes),
    {
        self.total.bytes_received = self.total.bytes_received.saturating_add(bytes);
        self.last_checkout.bytes_received = self.last_checkout.bytes_received.saturating_add(
            bytes,
        );
    }

    /// Count bytes sent.
    pub fn send(&mut self, bytes: usize)
        ensures
            *final(self) == old(self).with_sent(bytes),
    {
        self.total.bytes_sent = self.total.bytes_sent.saturating_add(bytes);
        self.last_checkout.bytes_sent = self.last_checkout.bytes_sent.saturating_add(bytes);
    }

    /// Count a prepared statement.
    pub fn parse_complete(&mut self)
        ensures
            *final(self) == old(self).with_parse(),
    {
        self.total.parse = self.total.parse.saturating_add(1);
        self.last_checkout.parse = self.last_checkout.parse.saturating_add(1);
    }

    /// Count a bound portal.
    pub fn bind_complete(&mut self)
        ensures
            *final(self) == old(self).with_bind(),
    {
        self.total.bind = self.total.bind.saturating_add(1);
        self.last_checkout.bind = self.last_checkout.bind.saturating_add(1);
    }

    /// Count a rollback.
    pub fn rollback(&mut self)
        ensures
            *final(self) == old(self).with_rollback(),
    {
        self.total.rollbacks = self.total.rollbacks.saturating_add(1);
        self.last_checkout.rollbacks = self.last_checkout.rollbacks.saturating_add(1);
    }

    /// Count a health check.
    pub fn healthcheck(&mut self, now: Instant)
        ensures
            *final(self) == old(self).with_healthcheck(now),
    {
        self.last_healthcheck = Some(now);
        self.total.healthchecks = self.total.healthchecks.saturating_add(1);
        self.last_checkout.healthchecks = self.last_checkout.healthchecks.saturating_add(1);
    }

    /// Count closed statements.
    pub fn close_many(&mut self, closed: usize, left: usize)
        ensures
            *final(self) == old(self).with_closed(closed, left),
    {
        self.prepared_statements = left;
        self.total.close = self.total.close.saturating_add(closed);
        self.last_checkout.close = self.last_checkout.close.saturating_add(closed);
    }

    /// Count a cleaned session.
    pub fn cleaned(&mut self)
        ensures
            *final(self) == old(self).with_cleaned(),
    {
        self.total.cleaned = self.total.cleaned.saturating_add(1);
        self.last_checkout.cleaned = self.last_checkout.cleaned.saturating_add(1);
    }

    /// Set the number of statements prepared on the connection.
    pub fn set_prepared_statements(&mut self, count: usize)
        ensures
            *final(self) == (Stats { prepared_statements: count, ..*old(self) }),
    {
        self.prepared_statements = count;
    }

    /// The connection serves a client now.
    pub fn link_client(&mut self, client_name: &str, id: BackendKeyData)
        ensures
            *final(self) == (Stats {
                client_id: Some(id),
                application_name: final(self).application_name,
                ..*old(self)
            }),
            final(self).application_name@ == client_name@,
    {
        self.client_id = Some(id);
        self.application_name = owned(client_name);
    }

    /// The connection serves no client.
    pub fn clear_client_id(&mut self)
        ensures
            *final(self) == (Stats { client_id: None, ..*old(self) }),
    {
        self.client_id = None;
    }

    /// Start over counting what happens, and give back what happened.
    pub fn reset_last_checkout(&mut self) -> (r: Counts)
        ensures
            r == old(self).last_checkout,
            *final(self) == (Stats { last_checkout: final(self).last_checkout, ..*old(self) }),
            final(self).last_checkout.none(),
    {
        let counts = self.last_checkout;
        self.last_checkout = Counts::default();
        counts
    }

    /// The connection belongs to another pool now.
    pub fn set_pool_id(&mut self, id: u64)
        ensures
            *final(self) == (Stats { pool_id: id, ..*old(self) }),
    {
        self.pool_id = id;
    }

    /// Pool that the connection belongs to.
    pub fn pool_id(&self) -> (r: u64)
        ensures
            r == self.pool_id,
    {
        self.pool_id
    }

    /// When the connection was made.
    pub fn created_at(&self) -> (r: Instant)
        ensures
            r == self.created_at,
    {
        self.created_at
    }

    /// When the last transaction ended.
    pub fn last_used(&self) -> (r: Instant)
        ensures
            r == self.last_used,
    {
        self.last_used
    }

    /// When the connection was last checked.
    pub fn last_healthcheck(&self) -> (r: Option<Instant>)
        ensures
            r == self.last_healthcheck,
    {
        self.last_healthcheck
    }

    /// What happened since the connection was made.
    pub fn total(&self) -> (r: Counts)
        ensures
            r == self.total,
    {
        self.total
    }

    /// What happened since the connection was last checked out.
    pub fn last_checkout(&self) -> (r: Counts)
        ensures
            r == self.last_checkout,
    {
        self.last_checkout
    }
}

/// What happened in a pool.
#[derive(Clone, Copy, Debug, PartialEq, Eq, Structural)]
pub struct PoolCounts {
    /// Transactions.
    pub xact_count: usize,
    /// Queries.
    pub query_count: usize,
    /// Connections handed to clients.
    pub server_assignment_count: usize,
    /// Time that clients waited for connections.
    pub wait_time: Duration,
    /// Connections handed out for reads.
    pub reads: usize,
    /// Connections handed out for writes.
    pub writes: usize,
    /// Rollbacks.
    pub rollbacks: usize,
    /// Health checks.
    pub healthchecks: usize,
    /// Errors.
    pub errors: usize,
    /// Bytes sent to servers.
    pub sent: usize,
    /// Bytes received from servers.
    pub received: usize,
    /// Passwords tried.
    pub auth_attempts: usize,
}

impl Default for PoolCounts {
    fn default() -> (r: Self)
        ensures
            r == PoolCounts::none(),
    {
        PoolCounts {
            xact_count: 0,
            query_count: 0,
            server_assignment_count: 0,
            wait_time: Duration { nanos: 0 },
            reads: 0,
            writes: 0,
            rollbacks: 0,
            healthchecks: 0,
            errors: 0,
            sent: 0,
            received: 0,
            auth_attempts: 0,
        }
    }
}

impl PoolCounts {
    /// Nothing was counted.
    pub open spec fn none() -> PoolCounts {
        PoolCounts {
            xact_count: 0,
            query_count: 0,
            server_assignment_count: 0,
            wait_time: Duration { nanos: 0 },
            reads: 0,
            writes: 0,
            rollbacks: 0,
            healthchecks: 0,
            errors: 0,
            sent: 0,
            received: 0,
            auth_attempts: 0,
        }
    }

    /// What happened on a connection can be added without a counter running over.
    pub open spec fn room_for(&self, c: Counts) -> bool {
        &&& self.xact_count + c.transactions <= usize::MAX
        &&& self.query_count + c.queries <= usize::MAX
        &&& self.rollbacks + c.rollbacks <= usize::MAX
        &&& self.healthchecks + c.healthchecks <= usize::MAX
        &&& self.errors + c.errors <= usize::MAX
        &&& self.sent + c.bytes_sent <= usize::MAX
        &&& self.received + c.bytes_received <= usize::MAX
    }

    /// With what happened on a connection.
    pub open spec fn with(&self, c: Counts) -> PoolCounts {
        PoolCounts {
            xact_count: (self.xact_count + c.transactions) as usize,
            query_count: (self.query_count + c.queries) as usize,
            rollbacks: (self.rollbacks + c.rollbacks) as usize,
            healthchecks: (self.healthchecks + c.healthchecks) as usize,
            errors: (self.errors + c.errors) as usize,
            sent: (self.sent + c.bytes_sent) as usize,
            received: (self.received + c.bytes_received) as usize,
            ..*self
        }
    }

    /// Add what happened on a connection.
    pub fn plus(&self, c: Counts) -> (r: PoolCounts)
        requires
            self.room_for(c),
        ensures
            r == self.with(c),
    {
        PoolCounts {
            xact_count: self.xact_count + c.transactions,
            query_count: self.query_count + c.queries,
            rollbacks: self.rollbacks + c.rollbacks,
            healthchecks: self.healthchecks + c.healthchecks,
            errors: self.errors + c.errors,
            sent: self.sent + c.bytes_sent,
            received: self.received + c.bytes_received,
            ..*self
        }
    }
}

} // verus!
