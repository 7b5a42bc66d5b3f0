//! Connection pool.

use crate::config::general::PoolerMode;
use crate::net::{BackendKeyData, Parameter, Parameters};
use crate::pool::config::{Address, Config, PoolConfig};
#[allow(unused_imports)]
use crate::pool::config::same_address;
use crate::pool::error::Error;
use crate::pool::inner::{deliver_all, CheckInResult, Forward, Inner, Waiter};
#[allow(unused_imports)]
use crate::pool::inner::{
    all_closed_for, assigned, checked_in, checked_out, contents, lemma_put_back, put_back, sent_on,
    shelved,
};
#[allow(unused_imports)]
use crate::pool::taken::{last_for, Mapping};
use crate::pool::taken::Request;
use crate::server::connection::{DisconnectReason, Server, ServerOptions};
#[allow(unused_imports)]
use crate::server::prepared::PreparedStatements;
#[allow(unused_imports)]
use crate::server::stats::{Counts, PoolCounts, Stats};
#[allow(unused_imports)]
use crate::text::decimal;
use crate::text::wide_decimal_text;
use crate::time::{Duration, Instant};
#[allow(unused_imports)]
use crate::time::{MAX_NANOS, NANOS_PER_MILLI};
use vstd::prelude::*;

verus! {

/// How far behind a replica is.
#[derive(Clone, Copy, Debug, PartialEq, Eq, Structural)]
pub struct ReplicaLag {
    /// In time.
    pub duration: Duration,
    /// In bytes of the log.
    pub bytes: i64,
}

impl Default for ReplicaLag {
    fn default() -> (r: Self)
        ensures
            r.duration.nanos == 0,
            r.bytes == 0,
    {
        ReplicaLag { duration: Duration::zero(), bytes: 0 }
    }
}

impl ReplicaLag {
    /// The replica is at least that far behind, in time or in bytes.
    pub open spec fn reaches(&self, threshold: ReplicaLag) -> bool {
        self.duration.nanos >= threshold.duration.nanos || self.bytes >= threshold.bytes
    }

    /// The replica is at least that far behind, in time or in bytes.
    pub fn greater_or_eq(&self, threshold: &ReplicaLag) -> (r: bool)
        ensures
            r == self.reaches(*threshold),
    {
        self.duration.nanos >= threshold.duration.nanos || self.bytes >= threshold.bytes
    }
}

/// Where a server is in its log.
#[derive(Clone, Copy, Debug, PartialEq, Eq, Structural)]
pub struct LsnStats {
    /// The server follows another one.
    pub replica: bool,
    /// The server told where it is.
    pub valid: bool,
    /// When it did.
    pub fetched: Instant,
}

impl Default for LsnStats {
    fn default() -> (r: Self)
        ensures
            r == (LsnStats { replica: true, valid: false, fetched: Instant { nanos: 0 } }),
    {
        LsnStats { replica: true, valid: false, fetched: Instant::default() }
    }
}

/// A pool of connections to one server.
#[derive(Debug)]
pub struct Pool {
    /// Connections and clients.
    pub inner: Inner,
    /// Where the server is.
    pub addr: Address,
    /// Identifier of the pool.
    pub id: u64,
    /// Settings.
    pub config: Config,
    /// The server answers.
    pub health: bool,
    /// Settings that the server announced.
    pub params: Option<Parameters>,
    /// Where the server is in its log.
    pub lsn_stats: LsnStats,
    /// How far behind the server is.
    pub replica_lag: ReplicaLag,
    /// About how many connections are handed out.
    pub checked_out_count: usize,
}

/// What the pool had for a client right away.
#[derive(Debug)]
pub struct Checkout {
    /// An idle connection, if there was one.
    pub server: Option<Box<Server>>,
    /// The pool is paused, and the client has to wait until it is not.
    pub paused: bool,
}

/// What came of waiting for a connection.
#[derive(Debug)]
pub enum GetOutcome {
    /// A connection.
    Connected(Box<Server>),
    /// Nothing in time.
    TimedOut,
    /// An error.
    Failed(Error),
}

/// What to do with a connection after its health check.
#[derive(Debug)]
pub enum Checked {
    /// It goes to the client.
    Serve(Box<Server>),
    /// Give it back and try another one.
    Retry(Box<Server>),
    /// Give it back and give up.
    GiveUp(Box<Server>, Error),
}

/// The connection as it is used under these settings.
pub open spec fn configured(server: Server, config: Config) -> Server {
    Server {
        prepared_statements: PreparedStatements {
            capacity: config.prepared_statements_limit,
            level: config.prepared_statements_level,
            ..server.prepared_statements
        },
        pooler_mode: config.pooler_mode,
        ..server
    }
}

/// The connection as a client leaves it: it serves nobody, and starts over counting.
pub open spec fn released(server: Server) -> Server {
    Server {
        stats: Stats {
            client_id: None,
            last_checkout: Counts {
                queries: 0,
                transactions: 0,
                rollbacks: 0,
                errors: 0,
                healthchecks: 0,
                parse: 0,
                bind: 0,
                close: 0,
                cleaned: 0,
                bytes_sent: 0,
                bytes_received: 0,
            },
            ..server.stats
        },
        ..server
    }
}

/// A client leaves a connection.
fn release(server: &mut Server) -> (r: Counts)
    ensures
        *final(server) == released(*old(server)),
        r == old(server).stats.last_checkout,
{
    server.stats.clear_client_id();
    server.stats.reset_last_checkout()
}

/// When a connection counts as given back: in session mode when it is, otherwise when its last
/// transaction ended.
pub open spec fn released_at(server: Server, now: Instant) -> Instant {
    if server.pooler_mode == PoolerMode::Session {
        now
    } else {
        server.stats.last_used
    }
}

/// The last health check of the connection is too long ago for the pool to hand it out.
pub open spec fn healthcheck_due(pool: Pool, server: Server, now: Instant) -> bool {
    server.unchecked_for(now) >= pool.config.healthcheck_interval.nanos
}

/// What is counted for a client that got a connection right away.
pub open spec fn counted_checkout(counts: PoolCounts, read: bool) -> PoolCounts {
    PoolCounts {
        server_assignment_count: (counts.server_assignment_count + 1) as usize,
        reads: if read {
            (counts.reads + 1) as usize
        } else {
            counts.reads
        },
        writes: if read {
            counts.writes
        } else {
            (counts.writes + 1) as usize
        },
        ..counts
    }
}

/// `after` and `r` are what came of a client asking for a connection.
pub open spec fn asked(
    before: Pool,
    after: Pool,
    request: Request,
    r: Result<Checkout, Error>,
) -> bool {
    if !before.inner.online {
        r matches Err(e) && e == Error::Offline && after == before
    } else if before.inner.idle_connections@.len() == 0 {
        r == Ok::<Checkout, Error>(Checkout { server: None, paused: before.inner.paused }) && after
            == before
    } else {
        &&& r == Ok::<Checkout, Error>(
            Checkout {
                server: Some(before.inner.idle_connections@.last()),
                paused: before.inner.paused,
            },
        )
        &&& checked_out(
            Inner { counts: counted_checkout(before.inner.counts, request.read), ..before.inner },
            after.inner,
            request,
        )
        &&& after == (Pool {
            inner: after.inner,
            checked_out_count: after.checked_out_count,
            ..before
        })
        &&& before.checked_out_count < usize::MAX ==> after.checked_out_count
            == before.checked_out_count + 1
    }
}

/// `after` and `r` are what came of the health check of a connection.
pub open spec fn after_healthcheck(
    before: Pool,
    after: Pool,
    server: Box<Server>,
    outcome: Result<(), Error>,
    r: Checked,
) -> bool {
    &&& after == (Pool { health: outcome is Ok, ..before })
    &&& match outcome {
        Ok(_) => r == Checked::Serve(server),
        Err(e) => {
            let closed = Box::new(
                crate::pool::inner::closed_for(*server, DisconnectReason::Unhealthy),
            );
            if e == Error::HealthcheckError {
                r == Checked::Retry(closed)
            } else {
                r == Checked::GiveUp(closed, e)
            }
        },
    }
}

/// `after` and `r` are what came of waiting for a connection.
pub open spec fn after_waiting(
    before: Pool,
    after: Pool,
    outcome: GetOutcome,
    r: Result<Box<Server>, Error>,
) -> bool {
    match outcome {
        GetOutcome::Connected(server) => after == before && r == Ok::<Box<Server>, Error>(server),
        GetOutcome::TimedOut => after == (Pool { health: false, ..before }) && r == Err::<
            Box<Server>,
            Error,
        >(Error::CheckoutTimeout),
        GetOutcome::Failed(e) => after == (Pool { health: false, ..before }) && r == Err::<
            Box<Server>,
            Error,
        >(e),
    }
}

/// `after` and `r` are what came of a client leaving a connection.
pub open spec fn left(
    before: Pool,
    after: Pool,
    server: Server,
    now: Instant,
    r: Result<CheckInResult, Error>,
) -> bool {
    &&& checked_in(
        before.inner,
        after.inner,
        released(server),
        released_at(server, now),
        server.stats.last_checkout,
        false,
        r,
    )
    &&& after == (Pool {
        inner: after.inner,
        checked_out_count: after.checked_out_count,
        health: if r matches Ok(c) && c.server_error {
            false
        } else {
            before.health
        },
        ..before
    })
    &&& r is Err ==> after.checked_out_count == before.checked_out_count
    &&& r is Ok ==> after.checked_out_count == {
        let m = before.inner.taken@.len();
        let n = after.inner.taken@.len();
        if m <= n {
            before.checked_out_count as int
        } else if before.checked_out_count >= m - n {
            before.checked_out_count - (m - n)
        } else {
            0
        }
    }
}

/// The pool serves clients.
pub open spec fn serves_clients(pool: Pool) -> bool {
    !pool.inner.paused && pool.inner.online
}

/// The pool was paused.
pub open spec fn put_on_hold(before: Pool, after: Pool, closed: Seq<Server>) -> bool {
    &&& after == (Pool {
        inner: Inner {
            paused: true,
            idle_connections: after.inner.idle_connections,
            ..before.inner
        },
        ..before
    })
    &&& after.inner.idle_connections@.len() == 0
    &&& closed == all_closed_for(before.inner.idle_connections@, DisconnectReason::Offline)
}

/// Names and values.
pub open spec fn param_views(params: Seq<Parameter>) -> Seq<(Seq<char>, Seq<char>)> {
    params.map_values(|p: Parameter| (p.name@, p.value@))
}

/// `p` where `condition` holds, else nothing.
pub open spec fn param_if(condition: bool, p: (Seq<char>, Seq<char>)) -> Seq<
    (Seq<char>, Seq<char>),
> {
    if condition {
        seq![p]
    } else {
        Seq::empty()
    }
}

/// What is asked of the server when a connection is made under these settings.
pub open spec fn startup_params(config: Config) -> Seq<(Seq<char>, Seq<char>)> {
    seq![
        ("application_name"@, "PgDog"@),
        ("client_encoding"@, "utf-8"@),
    ] + (match config.statement_timeout {
        Some(timeout) => seq![
            ("statement_timeout"@, decimal((timeout.nanos / NANOS_PER_MILLI) as nat)),
        ],
        None => Seq::empty(),
    }) + param_if(config.replication_mode, ("replication"@, "database"@)) + param_if(
        config.read_only,
        ("default_transaction_read_only"@, "on"@),
    )
}

/// How long all clients together have waited.
pub open spec fn total_wait(waiting: Seq<Waiter>, now: Instant) -> nat
    decreases waiting.len(),
{
    if waiting.len() == 0 {
        0
    } else {
        now.since(waiting[0].request.created_at) + total_wait(waiting.skip(1), now)
    }
}

proof fn lemma_wait_bounds(waiting: Seq<Waiter>, now: Instant, k: int)
    requires
        0 <= k < waiting.len(),
    ensures
        now.since(waiting[k].request.created_at) + total_wait(waiting.skip(k + 1), now)
            <= total_wait(waiting, now),
    decreases waiting.len(),
{
    if k > 0 {
        let rest = waiting.skip(1);
        lemma_wait_bounds(rest, now, k - 1);
        assert(rest[k - 1] == waiting[k]);
        assert(rest.skip(k) == waiting.skip(k + 1));
    }
}

proof fn lemma_each_wait(waiting: Seq<Waiter>, now: Instant)
    ensures
        forall|i: int|
            0 <= i < waiting.len() ==> now.since((#[trigger] waiting[i]).request.created_at)
                <= total_wait(waiting, now),
{
    assert forall|i: int| 0 <= i < waiting.len() implies now.since(
        (#[trigger] waiting[i]).request.created_at,
    ) <= total_wait(waiting, now) by {
        lemma_wait_bounds(waiting, now, i);
    }
}

/// So many connections can be put into the pool without a counter running over.
pub open spec fn can_take_over(inner: Inner, n: nat, now: Instant) -> bool {
    &&& inner.counts.server_assignment_count + n <= usize::MAX
    &&& inner.size() + n <= usize::MAX
    &&& inner.counts.wait_time.nanos + total_wait(inner.waiting@, now) <= MAX_NANOS
}

/// The pool was just made from these settings: it is empty and not online, and nothing is known of
/// its server yet.
pub open spec fn pool_made(p: Pool, config: PoolConfig, id: u64) -> bool {
    &&& p.inner.is_new(config.config, id)
    &&& same_address(p.addr, config.address)
    &&& p == (Pool {
        inner: p.inner,
        addr: p.addr,
        id,
        config: config.config,
        health: true,
        params: None,
        lsn_stats: LsnStats { replica: true, valid: false, fetched: Instant { nanos: 0 } },
        replica_lag: ReplicaLag { duration: Duration { nanos: 0 }, bytes: 0 },
        checked_out_count: 0,
    })
}

/// A pool that was just made can take over the connections of any other one.
pub proof fn new_pools_can_take_over(p: Pool, config: PoolConfig, id: u64, from: Pool, now: Instant)
    requires
        pool_made(p, config, id),
        from.wf(),
    ensures
        p.wf(),
        can_take_over(p.inner, from.inner.size(), now),
{
}

impl Pool {
    /// The number of connections fits a machine word, and the pool and what it holds have the same
    /// identifier.
    pub open spec fn wf(&self) -> bool {
        &&& self.inner.wf()
        &&& self.inner.id == self.id
    }

    /// An empty pool that is not online.
    pub fn new(config: &PoolConfig, id: u64) -> (r: Self)
        ensures
            pool_made(r, *config, id),
            r.wf(),
    {
        Pool {
            inner: Inner::new(config.config, id),
            addr: config.address.clone(),
            id,
            config: config.config,
            health: true,
            params: None,
            lsn_stats: LsnStats::default(),
            replica_lag: ReplicaLag::default(),
            checked_out_count: 0,
        }
    }

    /// The server answers.
    pub fn healthy(&self) -> (r: bool)
        ensures
            r == self.health,
    {
        self.health
    }

    /// About how many connections are handed out.
    pub fn checked_out_count(&self) -> (r: usize)
        ensures
            r == self.checked_out_count,
    {
        self.checked_out_count
    }

    /// Bring the pool online. `true` if it was not, and its maintenance has to be started.
    pub fn launch(&mut self) -> (r: bool)
        ensures
            *final(self) == (Pool { inner: Inner { online: true, ..old(self).inner }, ..*old(self) }),
            r == !old(self).inner.online,
    {
        let launched = !self.inner.online;
        self.inner.online = true;
        launched
    }

    /// Hand out an idle connection, if the pool is online and has one.
    pub fn get_internal(&mut self, request: &Request) -> (r: Result<Checkout, Error>)
        requires
            old(self).wf(),
            old(self).inner.counts.server_assignment_count < usize::MAX,
            old(self).inner.counts.reads < usize::MAX,
            old(self).inner.counts.writes < usize::MAX,
        ensures
            final(self).wf(),
            asked(*old(self), *final(self), *request, r),
    {
        if !self.inner.online {
            return Err(Error::Offline);
        }
        let conn = match self.inner.take(request) {
            Ok(conn) => conn,
            Err(err) => {
                return Err(err);
            },
        };
        if conn.is_some() {
            self.checked_out_count = self.checked_out_count.wrapping_add(1);
            self.inner.counts.server_assignment_count = self.inner.counts.server_assignment_count
                + 1;
            if request.read {
                self.inner.counts.reads = self.inner.counts.reads + 1;
            } else {
                self.inner.counts.writes = self.inner.counts.writes + 1;
            }
        }
        Ok(Checkout { server: conn, paused: self.inner.paused })
    }

    /// Make a connection ready for use under the settings of the pool.
    pub fn prepare(&self, server: &mut Server)
        ensures
            *final(server) == configured(*old(server), self.config),
    {
        server.prepared_statements.set_capacity(self.config.prepared_statements_limit);
        server.prepared_statements.set_prepared_statements_level(
            self.config.prepared_statements_level,
        );
        server.set_pooler_mode(self.config.pooler_mode);
    }

    /// Take note of the health check of a connection, and say what to do with the connection. A
    /// failed check makes the pool unhealthy, a good one makes it healthy again. After a failed
    /// check another connection is tried; after anything worse none is.
    pub fn maybe_healthcheck(&mut self, server: Box<Server>, outcome: Result<(), Error>) -> (r:
        Checked)
        ensures
            after_healthcheck(*old(self), *final(self), server, outcome, r),
    {
        let mut server = server;
        match outcome {
            Ok(_) => {
                if !self.health {
                    self.health = true;
                }
                Checked::Serve(server)
            },
            Err(err) => {
                server.disconnect_reason(DisconnectReason::Unhealthy);
                self.health = false;
                if err == Error::HealthcheckError {
                    Checked::Retry(server)
                } else {
                    Checked::GiveUp(server, err)
                }
            },
        }
    }

    /// Say what a client gets after it waited for a connection. Without one, the pool is
    /// unhealthy.
    pub fn get(&mut self, outcome: GetOutcome) -> (r: Result<Box<Server>, Error>)
        ensures
            after_waiting(*old(self), *final(self), outcome, r),
    {
        match outcome {
            GetOutcome::Connected(server) => Ok(server),
            GetOutcome::TimedOut => {
                self.health = false;
                Err(Error::CheckoutTimeout)
            },
            GetOutcome::Failed(err) => {
                self.health = false;
                Err(err)
            },
        }
    }

    /// Take a connection back from a client. A broken connection makes the pool unhealthy.
    pub fn checkin(&mut self, server: Box<Server>, now: Instant) -> (r: Result<
        CheckInResult,
        Error,
    >)
        requires
            old(self).wf(),
            old(self).inner.can_count(server.stats.last_checkout),
            old(self).inner.can_assign(released_at(*server, now)),
        ensures
            final(self).wf(),
            left(*old(self), *final(self), *server, now, r),
    {
        let at = if *server.pooler_mode() == PoolerMode::Session {
            now
        } else {
            server.stats().last_used()
        };
        let mut server = server;
        let counts = release(&mut server);
        let before: usize = self.inner.checked_out();
        let result = match self.inner.maybe_check_in(server, at, counts, false) {
            Ok(result) => result,
            Err(err) => {
                return Err(err);
            },
        };
        let after: usize = self.inner.checked_out();
        if before > after {
            let delta: usize = before - after;
            self.checked_out_count = self.checked_out_count.saturating_sub(delta);
        }
        if result.server_error {
            self.health = false;
        }
        Ok(result)
    }

    /// Take a connection back that was given back to the pool whose place this one took. It is
    /// welcome even before this pool is online.
    pub fn checkin_moved(&mut self, forward: Forward) -> (r: Result<CheckInResult, Error>)
        requires
            old(self).wf(),
            old(self).inner.can_count(forward.stats),
            old(self).inner.can_assign(forward.now),
        ensures
            final(self).wf(),
            checked_in(
                old(self).inner,
                final(self).inner,
                *forward.server,
                forward.now,
                forward.stats,
                true,
                r,
            ),
            *final(self) == (Pool { inner: final(self).inner, ..*old(self) }),
    {
        self.inner.maybe_check_in(forward.server, forward.now, forward.stats, true)
    }

    /// A connection has to be checked before it is handed out: the last check is too long ago.
    pub fn needs_healthcheck(&self, server: &Server, now: Instant) -> (r: bool)
        ensures
            r == healthcheck_due(*self, *server, now),
    {
        server.healthcheck_age(now).nanos >= self.config.healthcheck_interval.nanos
    }

    /// The connection that serves the client.
    pub fn peer(&self, id: &BackendKeyData) -> (r: Option<BackendKeyData>)
        ensures
            r == last_for(self.inner.taken@, *id),
    {
        self.inner.peer(id)
    }

    /// The pool serves clients.
    pub fn available(&self) -> (r: bool)
        ensures
            r == serves_clients(*self),
    {
        !self.inner.paused && self.inner.online
    }

    /// Identifier of the pool.
    pub fn id(&self) -> (r: u64)
        ensures
            r == self.id,
    {
        self.id
    }

    /// The two pools are for the same server, database and user.
    pub fn can_move_conns_to(&self, destination: &Pool) -> (r: bool)
        ensures
            r == same_address(self.addr, destination.addr),
    {
        self.addr.same(&destination.addr)
    }

    /// Pause the pool, and give back its idle connections to be closed.
    pub fn pause(&mut self) -> (r: Vec<Box<Server>>)
        ensures
            put_on_hold(*old(self), *final(self), contents(r@)),
    {
        self.inner.paused = true;
        self.inner.dump_idle()
    }

    /// End the pause of the pool.
    pub fn resume(&mut self)
        ensures
            *final(self) == (Pool {
                inner: Inner { paused: false, ..old(self).inner },
                ..*old(self)
            }),
    {
        self.inner.paused = false;
    }

    /// Take the pool offline: its idle connections come back to be closed, and with them all clients
    /// that wait, each with the word that the pool is offline, which is to be sent to it.
    pub fn go_offline(&mut self) -> (r: (
        Vec<Box<Server>>,
        Vec<(Waiter, Result<Box<Server>, Error>)>,
    ))
        ensures
            *final(self) == (Pool {
                inner: Inner {
                    online: false,
                    idle_connections: final(self).inner.idle_connections,
                    waiting: final(self).inner.waiting,
                    ..old(self).inner
                },
                ..*old(self)
            }),
            final(self).inner.idle_connections@.len() == 0,
            contents(r.0@) == all_closed_for(
                old(self).inner.idle_connections@,
                DisconnectReason::Offline,
            ),
            final(self).inner.waiting@.len() == 0,
            r.1@.len() == old(self).inner.waiting@.len(),
            forall|i: int|
                0 <= i < r.1@.len() ==> #[trigger] r.1@[i] == (
                    old(self).inner.waiting@[i],
                    Err::<Box<Server>, Error>(Error::Offline),
                ),
    {
        self.inner.online = false;
        let closed = self.inner.dump_idle();
        let refusals = self.inner.refusals(Error::Offline);
        (closed, refusals)
    }

    /// Take the pool offline: its idle connections come back to be closed, and clients that wait
    /// are told that the pool is offline, as [`Pool::go_offline`] says.
    pub fn shutdown(&mut self) -> (r: Vec<Box<Server>>)
        ensures
            *final(self) == (Pool {
                inner: Inner {
                    online: false,
                    idle_connections: final(self).inner.idle_connections,
                    waiting: final(self).inner.waiting,
                    ..old(self).inner
                },
                ..*old(self)
            }),
            final(self).inner.idle_connections@.len() == 0,
            final(self).inner.waiting@.len() == 0,
            contents(r@) == all_closed_for(
                old(self).inner.idle_connections@,
                DisconnectReason::Offline,
            ),
    {
        let (closed, refusals) = self.go_offline();
        deliver_all(refusals);
        closed
    }

    /// What is asked of the server when a connection is made.
    pub fn server_options(&self) -> (r: ServerOptions)
        ensures
            r.pool_id == self.id,
            param_views(r.params@) == startup_params(self.config),
    {
        let mut params: Vec<Parameter> = Vec::new();
        params.push(Parameter::new("application_name", "PgDog"));
        params.push(Parameter::new("client_encoding", "utf-8"));
        match self.config.statement_timeout {
            Some(timeout) => {
                let millis = wide_decimal_text(timeout.as_millis());
                params.push(Parameter::new("statement_timeout", millis.as_str()));
            },
            None => {},
        }
        if self.config.replication_mode {
            params.push(Parameter::new("replication", "database"));
        }
        if self.config.read_only {
            params.push(Parameter::new("default_transaction_read_only", "on"));
        }
        assert(param_views(params@) == startup_params(self.config));
        ServerOptions { params, pool_id: self.id }
    }

    /// Where the server is.
    pub fn addr(&self) -> (r: &Address)
        ensures
            *r == self.addr,
    {
        &self.addr
    }

    /// Settings.
    pub fn config(&self) -> (r: &Config)
        ensures
            *r == self.config,
    {
        &self.config
    }

    /// How far behind the server is.
    pub fn replica_lag(&self) -> (r: ReplicaLag)
        ensures
            r == self.replica_lag,
    {
        self.replica_lag
    }

    /// Where the server is in its log.
    pub fn lsn_stats(&self) -> (r: LsnStats)
        ensures
            r == self.lsn_stats,
    {
        self.lsn_stats
    }

    /// Settings that the server announced, if they are known.
    pub fn params(&self) -> (r: Option<&Parameters>)
        ensures
            match (r, self.params) {
                (Some(a), Some(b)) => *a == b,
                (None, None) => true,
                _ => false,
            },
    {
        self.params.as_ref()
    }

    /// Take note of the settings that the server announced, unless they are known already.
    pub fn init_params(&mut self, params: Parameters)
        ensures
            *final(self) == (Pool {
                params: match old(self).params {
                    Some(known) => Some(known),
                    None => Some(params),
                },
                ..*old(self)
            }),
    {
        if self.params.is_none() {
            self.params = Some(params);
        }
    }

    /// Change the settings that connections and clients are held to.
    pub fn update_config(&mut self, config: Config)
        ensures
            *final(self) == (Pool { inner: Inner { config, ..old(self).inner }, ..*old(self) }),
    {
        self.inner.config = config;
    }

    /// Give all connections of this pool to another one and take this pool offline. Idle
    /// connections go to clients that wait there, if there are any; connections that are handed out
    /// will be given back there.
    pub fn move_conns_to(&mut self, destination: &mut Pool, now: Instant) -> (r: Result<(), Error>)
        requires
            old(self).wf(),
            old(destination).wf(),
            old(self).id != old(destination).id,
            can_take_over(old(destination).inner, old(self).inner.size(), now),
        ensures
            r is Ok,
            final(self).wf(),
            final(destination).wf(),
            conns_moved(*old(self), *old(destination), *final(self), *final(destination), now),
    {
        let from_before: usize = self.inner.checked_out();
        let to_before: usize = destination.inner.checked_out();
        self.inner.online = false;
        let (idle, taken) = self.inner.move_conns_to(destination.id);
        let ghost conns = idle@;
        let ghost given = reassigned(old(self).inner.idle_connections@, destination.id);
        let ghost start = destination.inner;
        assert(given.take(0) == Seq::<Server>::empty());
        for server in it: idle
            invariant
                it.seq() == conns,
                start == old(destination).inner,
                conns.len() == given.len(),
                forall|k: int| 0 <= k < conns.len() ==> *(#[trigger] conns[k]) == given[k],
                destination.inner.wf(),
                can_take_over(
                    destination.inner,
                    (conns.len() - it.index() + taken@.len()) as nat,
                    now,
                ),
                destination.inner.size() == start.size() + it.index(),
                destination.inner.taken@.len() >= start.taken@.len(),
                *destination == (Pool { inner: destination.inner, ..*old(destination) }),
                destination.inner.id == start.id,
                all_put(start, destination.inner, given.take(it.index() as int), now),
        {
            let ghost before = destination.inner;
            let ghost i = it.index() as int;
            let ghost conn = server;
            proof {
                lemma_each_wait(before.waiting@, now);
                assert(*server == given[i]);
            }
            match destination.inner.put(server, now) {
                Ok(_) => {},
                Err(err) => {
                    return Err(err);
                },
            }
            proof {
                lemma_put_back(before, destination.inner, conn, now);
                if !shelved(before, destination.inner, conn) {
                    let k = choose|k: int| #[trigger]
                        assigned(before, destination.inner, *conn, now, k);
                    lemma_wait_bounds(before.waiting@, now, k);
                } else {
                    assert(total_wait(destination.inner.waiting@, now) == 0);
                }
                let more = given.take(i + 1);
                assert(more.drop_last() == given.take(i));
                assert(more.last() == *conn);
                assert(all_put(start, before, more.drop_last(), now));
                assert(put_back(before, destination.inner, Box::new(more.last()), now));
            }
        }
        let ghost middle = destination.inner;
        destination.inner.merge_taken(taken);
        let from_after: usize = self.inner.checked_out();
        let to_after: usize = destination.inner.checked_out();
        if from_before > from_after {
            self.checked_out_count = self.checked_out_count.wrapping_sub(from_before - from_after);
        }
        if to_after > to_before {
            destination.checked_out_count = destination.checked_out_count.wrapping_add(
                to_after - to_before,
            );
        }
        let _ = self.shutdown();
        proof {
            assert(given.take(given.len() as int) == given);
            assert(all_put(old(destination).inner, middle, given, now));
        }
        Ok(())
    }
}

/// The connections once they belong to another pool.
pub open spec fn reassigned(conns: Seq<Box<Server>>, pool: u64) -> Seq<Server> {
    conns.map_values(|c: Box<Server>| sent_on(*c, pool))
}

/// `after` is `before` once all connections were put there, one after the other.
pub open spec fn all_put(before: Inner, after: Inner, conns: Seq<Server>, now: Instant) -> bool
    decreases conns.len(),
{
    if conns.len() == 0 {
        after == before
    } else {
        exists|middle: Inner|
            all_put(before, middle, conns.drop_last(), now) && #[trigger] put_back(
                middle,
                after,
                Box::new(conns.last()),
                now,
            )
    }
}

/// A pool gave all its connections to another one and is offline. Idle connections went to clients
/// that wait there, or are idle there; connections that are handed out are known there.
pub open spec fn conns_moved(
    from: Pool,
    to: Pool,
    from_after: Pool,
    to_after: Pool,
    now: Instant,
) -> bool {
    &&& from_after == (Pool {
        inner: Inner {
            online: false,
            moved: Some(to.id),
            idle_connections: from_after.inner.idle_connections,
            taken: from_after.inner.taken,
            waiting: from_after.inner.waiting,
            ..from.inner
        },
        checked_out_count: from.checked_out_count.wrapping_sub(from.inner.taken@.len() as usize),
        ..from
    })
    &&& from_after.inner.size() == 0
    &&& from_after.inner.waiting@.len() == 0
    &&& exists|middle: Inner| #[trigger]
        all_put(
            to.inner,
            middle,
            reassigned(from.inner.idle_connections@, to.id),
            now,
        ) && to_after == (Pool {
            inner: Inner { taken: to_after.inner.taken, ..middle },
            checked_out_count: to.checked_out_count.wrapping_add(
                (to_after.inner.taken@.len() - to.inner.taken@.len()) as usize,
            ),
            ..to
        }) && to_after.inner.taken@ == middle.taken@ + from.inner.taken@
}

pub(crate) proof fn lemma_all_put(before: Inner, after: Inner, conns: Seq<Server>, now: Instant)
    requires
        all_put(before, after, conns, now),
    ensures
        after.size() == before.size() + conns.len(),
        after.id == before.id && after.online == before.online,
        before.waiting@.len() == 0 ==> after.waiting@.len() == 0 && after.taken@ == before.taken@
            && contents(after.idle_connections@) == contents(before.idle_connections@) + conns,
    decreases conns.len(),
{
    if conns.len() > 0 {
        let middle = choose|middle: Inner|
            all_put(before, middle, conns.drop_last(), now) && #[trigger] put_back(
                middle,
                after,
                Box::new(conns.last()),
                now,
            );
        lemma_all_put(before, middle, conns.drop_last(), now);
        lemma_put_back(middle, after, Box::new(conns.last()), now);
        if before.waiting@.len() == 0 {
            assert(contents(after.idle_connections@) == contents(middle.idle_connections@).push(
                conns.last(),
            ));
            assert(conns == conns.drop_last().push(conns.last()));
        }
    } else {
        assert(contents(before.idle_connections@) + conns == contents(before.idle_connections@));
    }
}

/// Moving loses no connection: the other pool has as many more as this one had. If nobody waits
/// there, idle connections are idle there, behind those that were there before, and connections
/// that are handed out are handed out there.
pub proof fn moving_loses_nothing(
    from: Pool,
    to: Pool,
    from_after: Pool,
    to_after: Pool,
    now: Instant,
)
    requires
        conns_moved(from, to, from_after, to_after, now),
    ensures
        to_after.inner.size() == to.inner.size() + from.inner.size(),
        to.inner.waiting@.len() == 0 ==> to_after.inner.taken@ == to.inner.taken@
            + from.inner.taken@ && contents(to_after.inner.idle_connections@) == contents(
            to.inner.idle_connections@,
        ) + reassigned(from.inner.idle_connections@, to.id),
{
    let given = reassigned(from.inner.idle_connections@, to.id);
    let middle = choose|middle: Inner| #[trigger]
        all_put(to.inner, middle, given, now) && to_after == (Pool {
            inner: Inner { taken: to_after.inner.taken, ..middle },
            checked_out_count: to.checked_out_count.wrapping_add(
                (to_after.inner.taken@.len() - to.inner.taken@.len()) as usize,
            ),
            ..to
        }) && to_after.inner.taken@ == middle.taken@ + from.inner.taken@;
    lemma_all_put(to.inner, middle, given, now);
}

} // verus!
