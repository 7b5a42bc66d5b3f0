//! Pool internals.

use crate::net::BackendKeyData;
use crate::pool::config::Config;
use crate::pool::error::Error;
#[allow(unused_imports)]
use crate::pool::taken::{
    last_for, lemma_times_without, lemma_without_len, serves, times_taken, without,
};
use crate::pool::taken::{Mapping, Request, Taken};
use crate::server::connection::{ConnectReason, DisconnectReason, Server};
use crate::server::stats::{Counts, PoolCounts};
#[allow(unused_imports)]
use crate::server::stats::{State, Stats};
#[allow(unused_imports)]
use crate::text::decimal;
use crate::text::{decimal_text, owned};
use crate::time::{Duration, Instant};
#[allow(unused_imports)]
use crate::time::MAX_NANOS;
use std::collections::VecDeque;
use tokio::sync::oneshot::Sender;
use vstd::prelude::*;
use vstd::string::*;

verus! {

/// The sending half of a one-shot channel of `tokio`.
#[verifier::external_type_specification]
#[verifier::external_body]
#[verifier::reject_recursive_types(T)]
pub struct ExSender<T>(tokio::sync::oneshot::Sender<T>);

/// `tokio::sync::oneshot::Sender::send`: the value is delivered, or comes back because the
/// receiver is gone. Which of the two happens depends on the receiver, and nothing is said of it.
#[verifier::external_body]
fn deliver(
    tx: Sender<Result<Box<Server>, Error>>,
    value: Result<Box<Server>, Error>,
) -> (r: Result<(), Result<Box<Server>, Error>>)
    ensures
        r matches Err(back) ==> back == value,
{
    tx.send(value)
}

/// Deliver to each client what is for it. Clients that are gone miss nothing.
pub(crate) fn deliver_all(list: Vec<(Waiter, Result<Box<Server>, Error>)>) {
    for (waiter, value) in list {
        let _ = deliver(waiter.tx, value);
    }
}

/// All clients that waited were refused with this error: `sent` holds each of them with what is sent
/// to it, in the order in which they came.
pub open spec fn refused_all(
    before: Inner,
    after: Inner,
    err: Error,
    sent: Seq<(Waiter, Result<Box<Server>, Error>)>,
) -> bool {
    &&& after == (Inner { waiting: after.waiting, ..before })
    &&& after.waiting@.len() == 0
    &&& sent.len() == before.waiting@.len()
    &&& forall|i: int|
        0 <= i < sent.len() ==> #[trigger] sent[i] == (
            before.waiting@[i],
            Err::<Box<Server>, Error>(err),
        )
}

/// A client that waits for a connection.
#[derive(Debug)]
pub struct Waiter {
    /// What it asked for.
    pub request: Request,
    /// Where the connection goes.
    pub tx: Sender<Result<Box<Server>, Error>>,
}

/// A connection that has to be given to another pool.
#[derive(Debug)]
pub struct Forward {
    /// The other pool.
    pub pool: u64,
    /// The connection.
    pub server: Box<Server>,
    /// When it was given back.
    pub now: Instant,
    /// What happened on it since it was checked out.
    pub stats: Counts,
}

/// What came of giving a connection back.
#[derive(Debug)]
pub struct CheckInResult {
    /// The server is broken, and the pool should not be used for now.
    pub server_error: bool,
    /// The pool lost a connection that it should replace.
    pub replenish: bool,
    /// The connection, if it has to be closed.
    pub closed: Option<Box<Server>>,
    /// The connection, if another pool has to take it.
    pub forward: Option<Forward>,
}

/// Whether the pool should make a connection now.
#[derive(Clone, Copy, Debug, PartialEq, Eq, Structural)]
pub enum ShouldCreate {
    /// No.
    No,
    /// Yes, for this reason and in this situation.
    Yes {
        /// Why.
        reason: ConnectReason,
        /// Fewest connections.
        min: usize,
        /// Most connections.
        max: usize,
        /// Idle connections.
        idle: usize,
        /// Connections handed out.
        taken: usize,
        /// Clients that wait.
        waiting: usize,
    },
}

impl ShouldCreate {
    /// The pool should make a connection.
    pub fn yes(&self) -> (r: bool)
        ensures
            r == (*self is Yes),
    {
        match self {
            ShouldCreate::Yes { .. } => true,
            ShouldCreate::No => false,
        }
    }

    /// How it reads.
    pub open spec fn shown(&self) -> Seq<char> {
        match self {
            ShouldCreate::No => "no"@,
            ShouldCreate::Yes { reason, min, max, idle, taken, waiting } => "reason="@
                + reason.shown() + ", min="@ + decimal(*min as nat) + ", max="@ + decimal(
                *max as nat,
            ) + ", idle="@ + decimal(*idle as nat) + ", taken="@ + decimal(*taken as nat)
                + ", waiting="@ + decimal(*waiting as nat),
        }
    }

    /// How it reads.
    pub fn to_string(&self) -> (r: String)
        ensures
            r@ == self.shown(),
    {
        match self {
            ShouldCreate::No => owned("no"),
            ShouldCreate::Yes { reason, min, max, idle, taken, waiting } => {
                let mut out = owned("reason=");
                out.append(reason.to_string().as_str());
                out.append(", min=");
                out.append(decimal_text(*min as u64).as_str());
                out.append(", max=");
                out.append(decimal_text(*max as u64).as_str());
                out.append(", idle=");
                out.append(decimal_text(*idle as u64).as_str());
                out.append(", taken=");
                out.append(decimal_text(*taken as u64).as_str());
                out.append(", waiting=");
                out.append(decimal_text(*waiting as u64).as_str());
                out
            },
        }
    }
}

/// Pool internals.
#[derive(Debug)]
pub struct Inner {
    /// Idle connections, the most recently used one last.
    pub idle_connections: Vec<Box<Server>>,
    /// Connections that are handed out.
    pub taken: Taken,
    /// Settings.
    pub config: Config,
    /// Clients that wait for a connection.
    pub waiting: VecDeque<Waiter>,
    /// The pool serves clients.
    pub online: bool,
    /// The pool is paused.
    pub paused: bool,
    /// The pool is draining: connections given back are closed, not used again.
    pub draining: bool,
    /// Connections closed because they were out of step.
    pub out_of_sync: usize,
    /// Connections that had to be drained.
    pub re_synced: usize,
    /// Connections closed in the middle of something.
    pub force_close: usize,
    /// Connections closed because they were broken.
    pub errors: usize,
    /// What happened in the pool.
    pub counts: PoolCounts,
    /// Pool that connections have to be given to instead of this one.
    pub moved: Option<u64>,
    /// Identifier of the pool.
    pub id: u64,
}

/// The connection is too old.
pub open spec fn too_old(c: Server, base: Duration, now: Instant) -> bool {
    now.since(c.stats.created_at) >= c.lifetime(base).nanos
}

/// The connection has been idle for too long.
pub open spec fn too_idle(c: Server, timeout: Duration, now: Instant) -> bool {
    now.since(c.stats.last_used) >= timeout.nanos
}

/// The connection with a reason to be closed.
pub open spec fn closed_for(c: Server, reason: DisconnectReason) -> Server {
    Server {
        disconnect_reason: match c.disconnect_reason {
            Some(first) => Some(first),
            None => Some(reason),
        },
        ..c
    }
}

/// The connections with a reason to be closed.
pub open spec fn all_closed_for(conns: Seq<Box<Server>>, reason: DisconnectReason) -> Seq<Server> {
    conns.map_values(|c: Box<Server>| closed_for(*c, reason))
}

/// The connections themselves.
pub open spec fn contents(conns: Seq<Box<Server>>) -> Seq<Server> {
    conns.map_values(|c: Box<Server>| *c)
}

/// The idle connections that stay when at most `budget` of those that were idle for too long are
/// closed, the first ones first.
pub open spec fn idle_kept(
    conns: Seq<Box<Server>>,
    budget: nat,
    timeout: Duration,
    now: Instant,
) -> Seq<Box<Server>>
    decreases conns.len(),
{
    if conns.len() == 0 {
        conns
    } else if budget > 0 && too_idle(*conns[0], timeout, now) {
        idle_kept(conns.skip(1), (budget - 1) as nat, timeout, now)
    } else {
        seq![conns[0]] + idle_kept(conns.skip(1), budget, timeout, now)
    }
}

/// The idle connections that are closed when at most `budget` of those that were idle for too long
/// are, the first ones first.
pub open spec fn idle_closed(
    conns: Seq<Box<Server>>,
    budget: nat,
    timeout: Duration,
    now: Instant,
) -> Seq<Box<Server>>
    decreases conns.len(),
{
    if conns.len() == 0 {
        conns
    } else if budget > 0 && too_idle(*conns[0], timeout, now) {
        seq![conns[0]] + idle_closed(conns.skip(1), (budget - 1) as nat, timeout, now)
    } else {
        idle_closed(conns.skip(1), budget, timeout, now)
    }
}

/// `after` is `before` once connections that are too old were taken out of it.
pub open spec fn retired(before: Inner, after: Inner, closed: Seq<Server>, now: Instant) -> bool {
    let idle = before.idle_connections@;
    let base = before.config.max_age;
    &&& after == (Inner { idle_connections: after.idle_connections, ..before })
    &&& after.idle_connections@ == idle.filter(|c: Box<Server>| !too_old(*c, base, now))
    &&& closed == all_closed_for(
        idle.filter(|c: Box<Server>| too_old(*c, base, now)),
        DisconnectReason::Old,
    )
    &&& after.idle_connections@.len() + closed.len() == idle.len()
}

/// `after` is `before` once connections that were idle for too long were taken out of it, as far as
/// the fewest allow.
pub open spec fn thinned(before: Inner, after: Inner, closed: Seq<Server>, now: Instant) -> bool {
    let idle = before.idle_connections@;
    let timeout = before.config.idle_timeout;
    &&& after == (Inner { idle_connections: after.idle_connections, ..before })
    &&& after.idle_connections@ == idle_kept(idle, before.surplus(), timeout, now)
    &&& closed == all_closed_for(
        idle_closed(idle, before.surplus(), timeout, now),
        DisconnectReason::Idle,
    )
    &&& after.idle_connections@.len() + closed.len() == idle.len()
    &&& closed.len() <= before.surplus()
}

/// All idle connections were taken out of the pool, to be closed.
pub open spec fn dumped(before: Inner, after: Inner, closed: Seq<Server>) -> bool {
    &&& after == (Inner { idle_connections: after.idle_connections, ..before })
    &&& after.idle_connections@.len() == 0
    &&& closed == all_closed_for(before.idle_connections@, DisconnectReason::Offline)
}

/// The idle connections that are inside of a transaction were taken out of the pool.
pub open spec fn left_open(before: Inner, after: Inner, found: Seq<Box<Server>>) -> bool {
    &&& after == (Inner { idle_connections: after.idle_connections, ..before })
    &&& after.idle_connections@ == before.idle_connections@.filter(
        |c: Box<Server>| !c.in_transaction,
    )
    &&& found == before.idle_connections@.filter(|c: Box<Server>| c.in_transaction)
}

/// A client asked for a connection: `handed` is an idle one, if there was any.
pub open spec fn handed_out(
    before: Inner,
    after: Inner,
    request: Request,
    handed: Option<Box<Server>>,
) -> bool {
    if before.idle_connections@.len() == 0 {
        after == before && handed is None
    } else {
        checked_out(before, after, request) && handed == Some(before.idle_connections@.last())
    }
}

/// The clients that wait, without the first one of this identifier.
pub open spec fn without_waiter(waiting: Seq<Waiter>, id: BackendKeyData) -> Seq<Waiter>
    decreases waiting.len(),
{
    if waiting.len() == 0 {
        waiting
    } else if waiting[0].request.id == id {
        waiting.skip(1)
    } else {
        seq![waiting[0]] + without_waiter(waiting.skip(1), id)
    }
}

proof fn lemma_without_waiter(waiting: Seq<Waiter>, id: BackendKeyData, i: int)
    requires
        0 <= i <= waiting.len(),
        forall|j: int| 0 <= j < i ==> (#[trigger] waiting[j]).request.id != id,
        i < waiting.len() ==> waiting[i].request.id == id,
    ensures
        without_waiter(waiting, id) == if i < waiting.len() {
            waiting.remove(i)
        } else {
            waiting
        },
    decreases waiting.len(),
{
    if waiting.len() == 0 {
    } else if i == 0 {
        assert(waiting.skip(1) == waiting.remove(0));
    } else {
        let rest = waiting.skip(1);
        assert(waiting[0].request.id != id);
        assert forall|j: int| 0 <= j < i - 1 implies (#[trigger] rest[j]).request.id != id by {
            assert(rest[j] == waiting[j + 1]);
        }
        lemma_without_waiter(rest, id, i - 1);
        if i < waiting.len() {
            assert(seq![waiting[0]] + rest.remove(i - 1) == waiting.remove(i));
        } else {
            assert(seq![waiting[0]] + rest == waiting);
        }
    }
}

/// `after` is `before` once the connection went to the waiting client of number `k`, after the
/// clients before it turned out to be gone.
pub open spec fn assigned(before: Inner, after: Inner, conn: Server, now: Instant, k: int) -> bool {
    &&& 0 <= k < before.waiting@.len()
    &&& after == (Inner {
        waiting: after.waiting,
        taken: after.taken,
        counts: PoolCounts {
            server_assignment_count: (before.counts.server_assignment_count + 1) as usize,
            wait_time: Duration {
                nanos: (before.counts.wait_time.nanos + now.since(
                    before.waiting@[k].request.created_at,
                )) as u128,
            },
            ..before.counts
        },
        ..before
    })
    &&& after.waiting@ == before.waiting@.skip(k + 1)
    &&& after.taken@ == before.taken@.push(
        Mapping { client: before.waiting@[k].request.id, server: conn.id },
    )
}

/// `after` is `before` once the connection went idle, because nobody waits or all who did are
/// gone.
pub open spec fn shelved(before: Inner, after: Inner, conn: Box<Server>) -> bool {
    &&& after == (Inner {
        waiting: after.waiting,
        idle_connections: after.idle_connections,
        ..before
    })
    &&& after.waiting@.len() == 0
    &&& after.idle_connections@ == before.idle_connections@.push(conn)
}

/// `after` is `before` once the connection was offered to the clients that wait, one after the
/// other. `alive` says which of them are still there: the first one of these has the connection,
/// and if there is none the connection is idle.
pub open spec fn offered_in_turn(
    before: Inner,
    after: Inner,
    conn: Box<Server>,
    alive: Seq<bool>,
    now: Instant,
) -> bool {
    &&& alive.len() == before.waiting@.len()
    &&& {
        ||| (forall|j: int| 0 <= j < alive.len() ==> !#[trigger] alive[j]) && shelved(
            before,
            after,
            conn,
        )
        ||| exists|k: int| #[trigger]
            assigned(before, after, *conn, now, k) && alive[k] && forall|j: int|
                0 <= j < k ==> !#[trigger] alive[j]
    }
}

/// `after` is `before` once the connection went to the first client that waits and is still there,
/// or else went idle.
pub open spec fn put_back(before: Inner, after: Inner, conn: Box<Server>, now: Instant) -> bool {
    exists|alive: Seq<bool>| #[trigger] offered_in_turn(before, after, conn, alive, now)
}

pub(crate) proof fn lemma_put_back(before: Inner, after: Inner, conn: Box<Server>, now: Instant)
    requires
        put_back(before, after, conn, now),
    ensures
        shelved(before, after, conn) || exists|k: int| #[trigger]
            assigned(before, after, *conn, now, k),
        before.waiting@.len() == 0 ==> shelved(before, after, conn),
{
    let alive = choose|alive: Seq<bool>| #[trigger]
        offered_in_turn(before, after, conn, alive, now);
    assert(offered_in_turn(before, after, conn, alive, now));
}

/// What is sent to the first client that waits, which leaves the queue for it.
pub open spec fn sent_to_first(
    before: Inner,
    after: Inner,
    value: Result<Box<Server>, Error>,
    r: (Waiter, Result<Box<Server>, Error>),
) -> bool {
    &&& r == (before.waiting@[0], value)
    &&& after == (Inner { waiting: after.waiting, ..before })
    &&& after.waiting@ == before.waiting@.skip(1)
}

/// The connection serves the client from now on.
pub open spec fn noted(
    before: Inner,
    after: Inner,
    request: Request,
    server: BackendKeyData,
    now: Instant,
) -> bool {
    &&& after == (Inner {
        taken: after.taken,
        counts: PoolCounts {
            server_assignment_count: (before.counts.server_assignment_count + 1) as usize,
            wait_time: Duration {
                nanos: (before.counts.wait_time.nanos + now.since(request.created_at)) as u128,
            },
            ..before.counts
        },
        ..before
    })
    &&& after.taken@ == before.taken@.push(Mapping { client: request.id, server })
}

/// What happens to a connection that is given back.
#[derive(Clone, Copy, Debug, PartialEq, Eq, Structural)]
pub enum Fate {
    /// Another pool takes it.
    Forwarded,
    /// The pool did not hand it out.
    Untracked,
    /// It is broken.
    Broken,
    /// The pool does not take connections now.
    Declined,
    /// It is closed for this reason.
    Closed(DisconnectReason),
    /// It serves another client or waits for one.
    Kept,
}

/// What happens to a connection that is given back.
pub open spec fn fate(inner: Inner, server: Server, now: Instant, moving: bool) -> Fate {
    if inner.moved is Some && inner.moved != Some(inner.id) {
        Fate::Forwarded
    } else if !serves(inner.taken@, server.id) {
        Fate::Untracked
    } else if server.stats.state == State::Error {
        Fate::Broken
    } else if (!inner.online && !moving) || inner.paused || inner.draining {
        Fate::Declined
    } else if too_old(server, inner.config.max_age, now) {
        Fate::Closed(DisconnectReason::Old)
    } else if server.must_close() {
        Fate::Closed(DisconnectReason::ForceClose)
    } else if server.replication_mode {
        Fate::Closed(DisconnectReason::ReplicationMode)
    } else if server.stats.state != State::Idle {
        Fate::Closed(DisconnectReason::OutOfSync)
    } else {
        Fate::Kept
    }
}

/// The connection was drained, and gets as far as being looked at again.
pub open spec fn counts_re_sync(inner: Inner, server: Server, now: Instant, moving: bool) -> bool {
    server.re_synced && match fate(inner, server, now, moving) {
        Fate::Kept => true,
        Fate::Closed(reason) => reason == DisconnectReason::OutOfSync,
        _ => false,
    }
}

/// The pool after a connection was given back, before the connection is put anywhere.
pub open spec fn settled(
    inner: Inner,
    after: Inner,
    server: Server,
    now: Instant,
    stats: Counts,
    moving: bool,
) -> bool {
    let f = fate(inner, server, now, moving);
    &&& after == (Inner {
        taken: after.taken,
        counts: inner.counts.with(stats),
        errors: if f is Broken {
            (inner.errors + 1) as usize
        } else {
            inner.errors
        },
        force_close: if f == Fate::Closed(DisconnectReason::ForceClose) {
            (inner.force_close + 1) as usize
        } else {
            inner.force_close
        },
        out_of_sync: if f == Fate::Closed(DisconnectReason::OutOfSync) {
            (inner.out_of_sync + 1) as usize
        } else {
            inner.out_of_sync
        },
        re_synced: if counts_re_sync(inner, server, now, moving) {
            (inner.re_synced + 1) as usize
        } else {
            inner.re_synced
        },
        ..inner
    })
    &&& after.taken@ == without(inner.taken@, server.id)
}

/// The connection once it was looked at again.
pub open spec fn refreshed(server: Server) -> Server {
    Server { re_synced: false, ..server }
}

/// Whether the pool should make a connection now: for a client that waits while nothing is idle;
/// otherwise only to keep the fewest connections open, while the pool is maintained.
pub open spec fn creation(inner: Inner) -> ShouldCreate {
    let below_max = inner.size() < inner.config.max;
    let client_needs = below_max && inner.waiting@.len() > 0 && inner.idle_connections@.len() == 0;
    let below_min = below_max && inner.size() < inner.config.min && inner.online && !inner.paused
        && !inner.draining;
    if client_needs || below_min {
        ShouldCreate::Yes {
            reason: if client_needs {
                ConnectReason::ClientWaiting
            } else {
                ConnectReason::BelowMin
            },
            min: inner.config.min,
            max: inner.config.max,
            idle: inner.idle_connections@.len() as usize,
            taken: inner.taken@.len() as usize,
            waiting: inner.waiting@.len() as usize,
        }
    } else {
        ShouldCreate::No
    }
}

/// `after` is `before` once its most recently used idle connection went to a client.
pub open spec fn checked_out(before: Inner, after: Inner, request: Request) -> bool {
    &&& before.idle_connections@.len() > 0
    &&& after == (Inner {
        idle_connections: after.idle_connections,
        taken: after.taken,
        ..before
    })
    &&& after.idle_connections@ == before.idle_connections@.drop_last()
    &&& after.taken@ == before.taken@.push(
        Mapping { client: request.id, server: before.idle_connections@.last().id },
    )
}

/// The connection as it is closed.
pub open spec fn closed_by_fate(server: Server, fate: Fate) -> Server {
    match fate {
        Fate::Broken => closed_for(server, DisconnectReason::Error),
        Fate::Closed(reason) => closed_for(
            if reason == DisconnectReason::OutOfSync {
                refreshed(server)
            } else {
                server
            },
            reason,
        ),
        _ => server,
    }
}

/// The connection is closed. Unless the pool itself declined it, the pool should replace it, if
/// nothing else took the pool's place.
pub open spec fn disposed(c: CheckInResult, server: Server, fate: Fate, replenish: bool) -> bool {
    &&& c.server_error == (fate == Fate::Broken)
    &&& c.replenish == (replenish && fate != Fate::Declined)
    &&& c.forward is None
    &&& c.closed == Some(Box::new(closed_by_fate(server, fate)))
}

/// Another pool takes the connection.
pub open spec fn forwarded(
    c: CheckInResult,
    server: Server,
    moved: Option<u64>,
    now: Instant,
    stats: Counts,
) -> bool {
    &&& !c.server_error
    &&& !c.replenish
    &&& c.closed is None
    &&& c.forward matches Some(f) && Some(f.pool) == moved && *f.server == sent_on(server, f.pool)
        && f.now == now && f.stats == stats
}

/// The connection once it belongs to another pool.
pub open spec fn sent_on(server: Server, pool: u64) -> Server {
    Server { stats: Stats { pool_id: pool, ..server.stats }, ..server }
}

/// The pool is still the same one, with the same settings, and takes connections as before.
pub open spec fn same_standing(a: Inner, b: Inner) -> bool {
    &&& b.id == a.id
    &&& b.config == a.config
    &&& b.online == a.online
    &&& b.paused == a.paused
    &&& b.draining == a.draining
    &&& b.moved == a.moved
}

/// `after` and `r` are what came of giving a connection back.
#[verifier::opaque]
pub open spec fn checked_in(
    before: Inner,
    after: Inner,
    server: Server,
    now: Instant,
    stats: Counts,
    moving: bool,
    r: Result<CheckInResult, Error>,
) -> bool {
    match fate(before, server, now, moving) {
        Fate::Forwarded => after == before && (r matches Ok(c) && forwarded(
            c,
            server,
            before.moved,
            now,
            stats,
        )),
        Fate::Untracked => after == before && (r matches Err(e) && e
            == Error::UntrackedConnCheckin(server.id)),
        Fate::Kept => {
            &&& exists|middle: Inner| #[trigger]
                settled(before, middle, server, now, stats, moving) && put_back(
                    middle,
                    after,
                    Box::new(refreshed(server)),
                    now,
                )
            &&& r matches Ok(c) && !c.server_error && !c.replenish && c.forward is None
                && c.closed is None
        },
        f => settled(before, after, server, now, stats, moving) && (r matches Ok(c) && disposed(
            c,
            server,
            f,
            before.moved is None,
        )),
    }
}

fn dispose(server: Box<Server>, fate: Fate, replenish: bool) -> (r: CheckInResult)
    ensures
        disposed(r, *server, fate, replenish),
{
    let mut server = server;
    match fate {
        Fate::Broken => {
            server.disconnect_reason(DisconnectReason::Error);
        },
        Fate::Closed(reason) => {
            if reason == DisconnectReason::OutOfSync {
                server.reset_re_synced();
            }
            server.disconnect_reason(reason);
        },
        _ => {},
    }
    CheckInResult {
        // Keep the pool from serving more clients.
        server_error: fate == Fate::Broken,
        replenish: replenish && fate != Fate::Declined,
        closed: Some(server),
        forward: None,
    }
}

impl Inner {
    /// The number of connections fits a machine word.
    pub open spec fn wf(&self) -> bool {
        self.idle_connections@.len() + self.taken@.len() <= usize::MAX
    }

    /// The pool was just made: it is empty and not online, and nothing was counted.
    pub open spec fn is_new(&self, config: Config, id: u64) -> bool {
        &&& *self == (Inner {
            idle_connections: self.idle_connections,
            taken: self.taken,
            config,
            waiting: self.waiting,
            online: false,
            paused: false,
            draining: false,
            out_of_sync: 0,
            re_synced: 0,
            force_close: 0,
            errors: 0,
            counts: PoolCounts::none(),
            moved: None,
            id,
        })
        &&& self.idle_connections@.len() == 0
        &&& self.taken@.len() == 0
        &&& self.waiting@.len() == 0
    }

    /// How many connections the pool has.
    pub open spec fn size(&self) -> nat {
        self.idle_connections@.len() + self.taken@.len()
    }

    /// How many connections can be closed without going below the fewest.
    pub open spec fn surplus(&self) -> nat {
        if self.size() > self.config.min {
            (self.size() - self.config.min) as nat
        } else {
            0
        }
    }

    /// One more client can be served without a counter running over.
    pub open spec fn can_assign(&self, now: Instant) -> bool {
        &&& self.counts.server_assignment_count < usize::MAX
        &&& self.size() < usize::MAX
        &&& forall|i: int|
            0 <= i < self.waiting@.len() ==> self.counts.wait_time.nanos + now.since(
                (#[trigger] self.waiting@[i]).request.created_at,
            ) <= MAX_NANOS
    }

    /// One more connection can be given back without a counter running over.
    pub open spec fn can_count(&self, stats: Counts) -> bool {
        &&& self.counts.room_for(stats)
        &&& self.errors < usize::MAX
        &&& self.force_close < usize::MAX
        &&& self.out_of_sync < usize::MAX
        &&& self.re_synced < usize::MAX
    }

    /// An empty pool that is not online.
    pub fn new(config: Config, id: u64) -> (r: Self)
        ensures
            r.is_new(config, id),
            r.wf(),
    {
        Inner {
            idle_connections: Vec::new(),
            taken: Taken::new(),
            config,
            waiting: VecDeque::new(),
            online: false,
            paused: false,
            draining: false,
            force_close: 0,
            out_of_sync: 0,
            re_synced: 0,
            errors: 0,
            counts: PoolCounts::default(),
            moved: None,
            id,
        }
    }

    /// How many connections the pool has.
    pub fn total(&self) -> (r: usize)
        requires
            self.wf(),
        ensures
            r == self.size(),
    {
        self.idle() + self.checked_out()
    }

    /// The pool makes no more connections.
    pub fn full(&self) -> (r: bool)
        requires
            self.wf(),
        ensures
            r == (self.size() >= self.config.max),
    {
        self.total() >= self.max()
    }

    /// Idle connections.
    pub fn idle(&self) -> (r: usize)
        ensures
            r == self.idle_connections@.len(),
    {
        self.idle_connections.len()
    }

    /// The idle connections themselves.
    pub fn idle_conns(&self) -> (r: &Vec<Box<Server>>)
        ensures
            *r == self.idle_connections,
    {
        &self.idle_connections
    }

    /// Connections that are handed out.
    pub fn checked_out(&self) -> (r: usize)
        ensures
            r == self.taken@.len(),
    {
        self.taken.len()
    }

    /// Identifiers of all connections that are handed out.
    pub fn checked_out_server_ids(&self) -> (r: Vec<BackendKeyData>)
        ensures
            r@ == self.taken@.map_values(|m: Mapping| m.server),
    {
        self.taken.servers()
    }

    /// The connection that serves the client.
    pub fn peer(&self, client_id: &BackendKeyData) -> (r: Option<BackendKeyData>)
        ensures
            r == last_for(self.taken@, *client_id),
    {
        self.taken.server(client_id)
    }

    /// How many connections can be closed without going below the fewest.
    pub fn can_remove(&self) -> (r: usize)
        requires
            self.wf(),
        ensures
            r == self.surplus(),
    {
        let total: usize = self.total();
        let min: usize = self.min();
        if total > min {
            total - min
        } else {
            0
        }
    }

    /// Fewest connections that are kept open.
    pub fn min(&self) -> (r: usize)
        ensures
            r == self.config.min,
    {
        self.config.min
    }

    /// Most connections that are opened.
    pub fn max(&self) -> (r: usize)
        ensures
            r == self.config.max,
    {
        self.config.max
    }

    /// Settings.
    pub fn config(&self) -> (r: &Config)
        ensures
            *r == self.config,
    {
        &self.config
    }

    /// Whether the pool should make a connection now: for a client that waits while nothing is
    /// idle, even if the pool is not maintained; otherwise only to keep the fewest connections
    /// open. Never beyond the most.
    pub fn should_create(&self) -> (r: ShouldCreate)
        requires
            self.wf(),
        ensures
            r == creation(*self),
    {
        let below_min = self.total() < self.min();
        let below_max = self.total() < self.max();
        let maintain_min = below_min && below_max;
        let client_needs = below_max && self.waiting.len() > 0 && self.idle_connections.is_empty();
        let maintenance_on = self.online && !self.paused;
        // Clients of banned pools cannot ask for connections unless the pool is a primary.
        let reason = if client_needs {
            ConnectReason::ClientWaiting
        } else if maintenance_on && maintain_min && !self.draining {
            ConnectReason::BelowMin
        } else {
            return ShouldCreate::No;
        };
        ShouldCreate::Yes {
            reason,
            min: self.min(),
            max: self.max(),
            idle: self.idle(),
            taken: self.checked_out(),
            waiting: self.waiting.len(),
        }
    }

    /// Take the connections that are too old out of the pool, whatever the fewest are, and give
    /// them back to be closed.
    pub fn close_old(&mut self, now: Instant) -> (r: Vec<Box<Server>>)
        requires
            old(self).wf(),
        ensures
            final(self).wf(),
            retired(*old(self), *final(self), contents(r@), now),
    {
        let base = self.config.max_age;
        let ghost all = self.idle_connections@;
        let ghost keep = |c: Box<Server>| !too_old(*c, base, now);
        let ghost close = |c: Box<Server>| too_old(*c, base, now);
        let mut rest: Vec<Box<Server>> = Vec::new();
        rest.append(&mut self.idle_connections);
        let mut kept: Vec<Box<Server>> = Vec::new();
        let mut closed: Vec<Box<Server>> = Vec::new();
        proof {
            reveal(Seq::filter);
            assert(all.take(0).filter(keep) == Seq::<Box<Server>>::empty());
            assert(all.take(0).filter(close) == Seq::<Box<Server>>::empty());
        }
        for conn in it: rest
            invariant
                it.seq() == all,
                keep == (|c: Box<Server>| !too_old(*c, base, now)),
                close == (|c: Box<Server>| too_old(*c, base, now)),
                kept@ == all.take(it.index() as int).filter(keep),
                contents(closed@) == all_closed_for(
                    all.take(it.index() as int).filter(close),
                    DisconnectReason::Old,
                ),
                kept@.len() + closed@.len() == it.index(),
        {
            let ghost i = it.index() as int;
            proof {
                reveal(Seq::filter);
                assert(conn == all[i]);
                assert(all.take(i + 1).drop_last() == all.take(i));
                assert(all.take(i + 1).last() == conn);
            }
            let age = conn.age(now);
            if age.nanos < conn.effective_max_age(base).nanos {
                kept.push(conn);
            } else {
                let ghost before = closed@;
                let ghost given = *conn;
                let mut conn = conn;
                conn.disconnect_reason(DisconnectReason::Old);
                closed.push(conn);
                assert(contents(closed@) == contents(before).push(
                    closed_for(given, DisconnectReason::Old),
                ));
                assert(all_closed_for(all.take(i + 1).filter(close), DisconnectReason::Old)
                    == all_closed_for(all.take(i).filter(close), DisconnectReason::Old).push(
                    closed_for(given, DisconnectReason::Old),
                ));
            }
        }
        assert(all.take(all.len() as int) == all);
        self.idle_connections = kept;
        closed
    }

    /// Take connections that have been idle for too long out of the pool, as long as the fewest
    /// stay, and give them back to be closed.
    pub fn close_idle(&mut self, now: Instant) -> (r: Vec<Box<Server>>)
        requires
            old(self).wf(),
        ensures
            final(self).wf(),
            thinned(*old(self), *final(self), contents(r@), now),
    {
        let budget: usize = self.can_remove();
        let mut remove: usize = budget;
        let timeout = self.config.idle_timeout;
        let ghost all = self.idle_connections@;
        let mut rest: Vec<Box<Server>> = Vec::new();
        rest.append(&mut self.idle_connections);
        let mut kept: Vec<Box<Server>> = Vec::new();
        let mut closed: Vec<Box<Server>> = Vec::new();
        let ghost all_kept = idle_kept(all, budget as nat, timeout, now);
        let ghost all_closed = all_closed_for(
            idle_closed(all, budget as nat, timeout, now),
            DisconnectReason::Idle,
        );
        proof {
            assert(all.skip(0) == all);
            assert(kept@ + all_kept == all_kept);
            assert(contents(closed@) + all_closed == all_closed);
        }
        for conn in it: rest
            invariant
                it.seq() == all,
                kept@ + idle_kept(all.skip(it.index() as int), remove as nat, timeout, now)
                    == all_kept,
                contents(closed@) + all_closed_for(
                    idle_closed(all.skip(it.index() as int), remove as nat, timeout, now),
                    DisconnectReason::Idle,
                ) == all_closed,
                kept@.len() + closed@.len() == it.index(),
                closed@.len() + remove == budget,
        {
            let ghost i = it.index() as int;
            let ghost left = remove as nat;
            proof {
                assert(conn == all[i]);
                assert(all.skip(i)[0] == conn);
                assert(all.skip(i).skip(1) == all.skip(i + 1));
            }
            let idle_for = conn.idle_for(now);
            if remove > 0 && idle_for.nanos >= timeout.nanos {
                remove = remove - 1;
                let ghost before = closed@;
                let ghost given = *conn;
                let ghost later = idle_closed(all.skip(i + 1), remove as nat, timeout, now);
                let ghost original = conn;
                let mut conn = conn;
                conn.disconnect_reason(DisconnectReason::Idle);
                closed.push(conn);
                proof {
                    let one = closed_for(given, DisconnectReason::Idle);
                    assert(contents(closed@) == contents(before).push(one));
                    assert(all_closed_for(seq![original] + later, DisconnectReason::Idle) == seq![
                        one,
                    ] + all_closed_for(later, DisconnectReason::Idle));
                    assert(contents(before) + (seq![one] + all_closed_for(
                        later,
                        DisconnectReason::Idle,
                    )) == contents(before).push(one) + all_closed_for(
                        later,
                        DisconnectReason::Idle,
                    ));
                }
            } else {
                let ghost before = kept@;
                let ghost original = conn;
                kept.push(conn);
                proof {
                    let later = idle_kept(all.skip(i + 1), left, timeout, now);
                    assert(before + (seq![original] + later) == before.push(original) + later);
                }
            }
        }
        proof {
            assert(all.skip(all.len() as int) == Seq::<Box<Server>>::empty());
            assert(kept@ + Seq::<Box<Server>>::empty() == kept@);
            assert(all_closed_for(Seq::<Box<Server>>::empty(), DisconnectReason::Idle) == Seq::<
                Server,
            >::empty());
            assert(contents(closed@) + Seq::<Server>::empty() == contents(closed@));
        }
        self.idle_connections = kept;
        closed
    }

    /// Hand the most recently used idle connection to a client.
    pub fn take(&mut self, request: &Request) -> (r: Result<Option<Box<Server>>, Error>)
        requires
            old(self).wf(),
        ensures
            final(self).wf(),
            r matches Ok(handed) && handed_out(*old(self), *final(self), *request, handed),
            final(self).size() == old(self).size(),
    {
        if self.idle_connections.is_empty() {
            return Ok(None);
        }
        match self.idle_connections.pop() {
            Some(conn) => {
                let server = *conn.id();
                match self.taken.take(&Mapping { client: request.id, server }) {
                    Ok(_) => Ok(Some(conn)),
                    Err(err) => Err(err),
                }
            },
            None => Ok(None),
        }
    }

    /// Give a connection to the first client that waits and is still there; if there is none, the
    /// connection goes idle. Whether a client is still there shows only when the connection is sent
    /// to it: what is sent is what [`Inner::next_offer`] says, and what comes of it is what
    /// [`Inner::offered`] says.
    pub fn put(&mut self, conn: Box<Server>, now: Instant) -> (r: Result<(), Error>)
        requires
            old(self).wf(),
            old(self).can_assign(now),
        ensures
            r is Ok,
            final(self).wf(),
            put_back(*old(self), *final(self), conn, now),
            old(self).waiting@.len() == 0 ==> shelved(*old(self), *final(self), conn),
            final(self).size() == old(self).size() + 1,
    {
        let ghost start = *self;
        let mut current = conn;
        let mut tried: Ghost<int> = Ghost(0);
        while self.waiting.len() > 0
            invariant
                0 <= tried@ <= start.waiting@.len(),
                start == *old(self),
                start.can_assign(now),
                start.wf(),
                current == conn,
                *self == (Inner { waiting: self.waiting, ..start }),
                self.waiting@ == start.waiting@.skip(tried@),
            decreases self.waiting@.len(),
        {
            let id = *current.id();
            let (waiter, value) = self.next_offer(current);
            assert(waiter == start.waiting@[tried@]);
            assert(self.waiting@ == start.waiting@.skip(tried@ + 1));
            let request = waiter.request;
            let outcome = deliver(waiter.tx, value);
            match self.offered(&request, id, outcome, now) {
                Some(returned) => {
                    current = returned;
                },
                None => {
                    proof {
                        let k = tried@;
                        let alive = Seq::new(start.waiting@.len(), |i: int| i == k);
                        assert(assigned(start, *self, *conn, now, k));
                        assert(offered_in_turn(start, *self, conn, alive, now));
                    }
                    return Ok(());
                },
            }
            tried = Ghost(tried@ + 1);
        }
        // Nobody waits, or all who did are gone.
        self.idle_connections.push(current);
        proof {
            let alive = Seq::new(start.waiting@.len(), |i: int| false);
            assert(shelved(start, *self, conn));
            assert(offered_in_turn(start, *self, conn, alive, now));
        }
        Ok(())
    }

    /// Offer a connection to the client that has waited longest: the client, which does not wait
    /// any longer, and what is sent to it.
    pub fn next_offer(&mut self, conn: Box<Server>) -> (r: (Waiter, Result<Box<Server>, Error>))
        requires
            old(self).waiting@.len() > 0,
        ensures
            sent_to_first(*old(self), *final(self), Ok::<Box<Server>, Error>(conn), r),
    {
        let waiter = self.first_waiter();
        (waiter, Ok(conn))
    }

    /// Refuse the client that has waited longest: the client, which does not wait any longer, and
    /// what is sent to it.
    pub fn next_refusal(&mut self, err: Error) -> (r: (Waiter, Result<Box<Server>, Error>))
        requires
            old(self).waiting@.len() > 0,
        ensures
            sent_to_first(*old(self), *final(self), Err::<Box<Server>, Error>(err), r),
    {
        let waiter = self.first_waiter();
        (waiter, Err(err))
    }

    fn first_waiter(&mut self) -> (r: Waiter)
        requires
            old(self).waiting@.len() > 0,
        ensures
            r == old(self).waiting@[0],
            *final(self) == (Inner { waiting: final(self).waiting, ..*old(self) }),
            final(self).waiting@ == old(self).waiting@.skip(1),
    {
        let waiter = self.waiting.pop_front().unwrap();
        assert(self.waiting@ == old(self).waiting@.skip(1));
        waiter
    }

    /// Take note of what came of offering a connection: a client that is still there has it, and one
    /// that is gone leaves it to be offered to the next one.
    pub fn offered(
        &mut self,
        request: &Request,
        id: BackendKeyData,
        outcome: Result<(), Result<Box<Server>, Error>>,
        now: Instant,
    ) -> (r: Option<Box<Server>>)
        requires
            old(self).counts.server_assignment_count < usize::MAX,
            old(self).counts.wait_time.nanos + now.since(request.created_at) <= MAX_NANOS,
        ensures
            match outcome {
                Ok(_) => noted(*old(self), *final(self), *request, id, now) && r is None,
                Err(Ok(conn)) => *final(self) == *old(self) && r == Some(conn),
                Err(Err(_)) => *final(self) == *old(self) && r is None,
            },
    {
        match outcome {
            Ok(_) => {
                self.assign(request, id, now);
                None
            },
            Err(Ok(conn)) => Some(conn),
            Err(Err(_)) => None,
        }
    }

    /// Take note that a connection went to a client that waited.
    pub fn assign(&mut self, request: &Request, server: BackendKeyData, now: Instant)
        requires
            old(self).counts.server_assignment_count < usize::MAX,
            old(self).counts.wait_time.nanos + now.since(request.created_at) <= MAX_NANOS,
        ensures
            noted(*old(self), *final(self), *request, server, now),
    {
        let _ = self.taken.take(&Mapping { client: request.id, server });
        self.counts.server_assignment_count = self.counts.server_assignment_count + 1;
        let waited = now.duration_since(request.created_at);
        self.counts.wait_time = Duration { nanos: self.counts.wait_time.nanos + waited.nanos };
    }

    /// Take over connections that another pool handed out.
    pub fn merge_taken(&mut self, taken: Taken)
        ensures
            *final(self) == (Inner { taken: final(self).taken, ..*old(self) }),
            final(self).taken@ == old(self).taken@ + taken@,
    {
        self.taken.merge(taken);
    }

    /// Take all idle connections out of the pool and give them back to be closed.
    pub fn dump_idle(&mut self) -> (r: Vec<Box<Server>>)
        ensures
            dumped(*old(self), *final(self), contents(r@)),
    {
        let ghost all = self.idle_connections@;
        let mut conns: Vec<Box<Server>> = Vec::new();
        conns.append(&mut self.idle_connections);
        let mut i: usize = 0;
        while i < conns.len()
            invariant
                i <= conns@.len(),
                conns@.len() == all.len(),
                forall|j: int|
                    0 <= j < i ==> *(#[trigger] conns@[j]) == closed_for(
                        *all[j],
                        DisconnectReason::Offline,
                    ),
                forall|j: int| i <= j < conns@.len() ==> #[trigger] conns@[j] == all[j],
            decreases conns@.len() - i,
        {
            conns[i].disconnect_reason(DisconnectReason::Offline);
            i = i + 1;
        }
        assert(contents(conns@) == all_closed_for(all, DisconnectReason::Offline));
        conns
    }

    /// Take all connections out of the pool for another one: the idle ones, which belong to the
    /// other pool from now on, and the knowledge of those that are handed out. Connections that are
    /// given back later go to the other pool.
    pub fn move_conns_to(&mut self, destination: u64) -> (r: (Vec<Box<Server>>, Taken))
        ensures
            *final(self) == (Inner {
                idle_connections: final(self).idle_connections,
                taken: final(self).taken,
                moved: Some(destination),
                ..*old(self)
            }),
            final(self).idle_connections@.len() == 0,
            final(self).taken@.len() == 0,
            r.1 == old(self).taken,
            r.0@.len() == old(self).idle_connections@.len(),
            forall|i: int|
                0 <= i < r.0@.len() ==> *(#[trigger] r.0@[i]) == (Server {
                    stats: Stats {
                        pool_id: destination,
                        ..old(self).idle_connections@[i].stats
                    },
                    ..*old(self).idle_connections@[i]
                }),
    {
        self.moved = Some(destination);
        let ghost all = self.idle_connections@;
        let mut idle: Vec<Box<Server>> = Vec::new();
        idle.append(&mut self.idle_connections);
        let mut taken = Taken::new();
        std::mem::swap(&mut self.taken, &mut taken);
        let mut i: usize = 0;
        while i < idle.len()
            invariant
                i <= idle@.len(),
                idle@.len() == all.len(),
                forall|j: int|
                    0 <= j < i ==> *(#[trigger] idle@[j]) == (Server {
                        stats: Stats { pool_id: destination, ..all[j].stats },
                        ..*all[j]
                    }),
                forall|j: int| i <= j < idle@.len() ==> #[trigger] idle@[j] == all[j],
            decreases idle@.len() - i,
        {
            idle[i].stats.set_pool_id(destination);
            i = i + 1;
        }
        (idle, taken)
    }

    /// Take all idle connections that are inside of a transaction out of the pool.
    pub fn take_idle_in_transaction(&mut self) -> (r: Vec<Box<Server>>)
        ensures
            left_open(*old(self), *final(self), r@),
    {
        let ghost all = self.idle_connections@;
        let ghost keep = |c: Box<Server>| !c.in_transaction;
        let ghost busy = |c: Box<Server>| c.in_transaction;
        let mut rest: Vec<Box<Server>> = Vec::new();
        rest.append(&mut self.idle_connections);
        let mut kept: Vec<Box<Server>> = Vec::new();
        let mut out: Vec<Box<Server>> = Vec::new();
        proof {
            reveal(Seq::filter);
            assert(all.take(0).filter(keep) == Seq::<Box<Server>>::empty());
            assert(all.take(0).filter(busy) == Seq::<Box<Server>>::empty());
        }
        for conn in it: rest
            invariant
                it.seq() == all,
                keep == (|c: Box<Server>| !c.in_transaction),
                busy == (|c: Box<Server>| c.in_transaction),
                kept@ == all.take(it.index() as int).filter(keep),
                out@ == all.take(it.index() as int).filter(busy),
        {
            proof {
                reveal(Seq::filter);
                let i = it.index() as int;
                assert(conn == all[i]);
                assert(all.take(i + 1).drop_last() == all.take(i));
                assert(all.take(i + 1).last() == conn);
            }
            if conn.in_transaction() {
                out.push(conn);
            } else {
                kept.push(conn);
            }
        }
        assert(all.take(all.len() as int) == all);
        self.idle_connections = kept;
        out
    }

    /// Take a connection back and use it again if it is fit for that. Otherwise it comes back to be
    /// closed, or to be given to the pool that took this one's place.
    pub fn maybe_check_in(
        &mut self,
        server: Box<Server>,
        now: Instant,
        stats: Counts,
        moving: bool,
    ) -> (r: Result<CheckInResult, Error>)
        requires
            old(self).wf(),
            old(self).can_count(stats),
            old(self).can_assign(now),
        ensures
            final(self).wf(),
            checked_in(*old(self), *final(self), *server, now, stats, moving, r),
            same_standing(*old(self), *final(self)),
            final(self).size() == match fate(*old(self), *server, now, moving) {
                Fate::Forwarded | Fate::Untracked | Fate::Kept => old(self).size(),
                _ => (old(self).size() - 1) as nat,
            },
    {
        let fate = self.fate_of(&server, now, moving);
        let replenish = self.moved.is_none();
        match fate {
            Fate::Forwarded => {
                proof {
                    reveal(checked_in);
                }
                return Ok(self.forward(server, now, stats));
            },
            Fate::Untracked => {
                proof {
                    reveal(checked_in);
                }
                return Err(Error::UntrackedConnCheckin(*server.id()));
            },
            _ => {},
        }
        self.settle(&server, now, stats, moving, fate);
        if fate != Fate::Kept {
            proof {
                reveal(checked_in);
            }
            return Ok(dispose(server, fate, replenish));
        }
        let ghost middle = *self;
        match self.keep(server, now) {
            Ok(_) => {},
            Err(err) => {
                return Err(err);
            },
        }
        assert(settled(*old(self), middle, *server, now, stats, moving));
        proof {
            reveal(checked_in);
        }
        Ok(CheckInResult { server_error: false, replenish: false, closed: None, forward: None })
    }

    /// Use a connection again.
    fn keep(&mut self, server: Box<Server>, now: Instant) -> (r: Result<(), Error>)
        requires
            old(self).wf(),
            old(self).can_assign(now),
        ensures
            r is Ok,
            final(self).wf(),
            put_back(*old(self), *final(self), Box::new(refreshed(*server)), now),
            final(self).size() == old(self).size() + 1,
            same_standing(*old(self), *final(self)),
    {
        let mut server = server;
        server.reset_re_synced();
        self.put(server, now)
    }

    /// What happens to a connection that is given back.
    pub fn fate_of(&self, server: &Server, now: Instant, moving: bool) -> (r: Fate)
        ensures
            r == fate(*self, *server, now, moving),
    {
        match self.moved {
            Some(moved) => {
                if moved != self.id {
                    return Fate::Forwarded;
                }
            },
            None => {},
        }
        if !self.taken.contains(server.id()) {
            return Fate::Untracked;
        }
        if server.error() {
            return Fate::Broken;
        }
        if (!self.online && !moving) || self.paused || self.draining {
            return Fate::Declined;
        }
        if server.age(now).nanos >= server.effective_max_age(self.config.max_age).nanos {
            return Fate::Closed(DisconnectReason::Old);
        }
        if server.force_close() {
            return Fate::Closed(DisconnectReason::ForceClose);
        }
        // Connections that stream changes cannot do anything else.
        if server.replication_mode() {
            return Fate::Closed(DisconnectReason::ReplicationMode);
        }
        if !server.can_check_in() {
            return Fate::Closed(DisconnectReason::OutOfSync);
        }
        Fate::Kept
    }

    /// Hand a connection on to the pool that took this one's place.
    fn forward(&self, server: Box<Server>, now: Instant, stats: Counts) -> (r: CheckInResult)
        requires
            self.moved is Some,
        ensures
            forwarded(r, *server, self.moved, now, stats),
    {
        let mut server = server;
        let mut forward: Option<Forward> = None;
        match self.moved {
            Some(pool) => {
                server.stats.set_pool_id(pool);
                forward = Some(Forward { pool, server, now, stats });
            },
            None => {},
        }
        CheckInResult { server_error: false, replenish: false, closed: None, forward }
    }

    /// Take note of a connection that is given back, and of what happens to it.
    fn settle(&mut self, server: &Server, now: Instant, stats: Counts, moving: bool, fate: Fate)
        requires
            old(self).can_count(stats),
            fate == self::fate(*old(self), *server, now, moving),
            fate != Fate::Forwarded,
            fate != Fate::Untracked,
        ensures
            settled(*old(self), *final(self), *server, now, stats, moving),
            final(self).taken@.len() == old(self).taken@.len() - 1,
    {
        let _ = self.taken.check_in(server.id());
        self.counts = self.counts.plus(stats);
        match fate {
            Fate::Broken => {
                self.errors = self.errors + 1;
            },
            Fate::Closed(DisconnectReason::ForceClose) => {
                self.force_close = self.force_close + 1;
            },
            Fate::Closed(DisconnectReason::OutOfSync) => {
                self.out_of_sync = self.out_of_sync + 1;
                if server.re_synced() {
                    self.re_synced = self.re_synced + 1;
                }
            },
            Fate::Kept => {
                if server.re_synced() {
                    self.re_synced = self.re_synced + 1;
                }
            },
            _ => {},
        }
    }

    /// A client does not wait any longer: it ran out of time or went away.
    pub fn remove_waiter(&mut self, id: &BackendKeyData)
        ensures
            *final(self) == (Inner { waiting: final(self).waiting, ..*old(self) }),
            final(self).waiting@ == without_waiter(old(self).waiting@, *id),
    {
        let ghost all = self.waiting@;
        let mut i: usize = 0;
        while i < self.waiting.len()
            invariant
                i <= self.waiting@.len(),
                *self == *old(self),
                all == self.waiting@,
                forall|j: int| 0 <= j < i ==> (#[trigger] all[j]).request.id != *id,
            decreases self.waiting@.len() - i,
        {
            if self.waiting[i].request.id == *id {
                let _ = self.waiting.remove(i);
                proof {
                    lemma_without_waiter(all, *id, i as int);
                }
                return ;
            }
            i = i + 1;
        }
        proof {
            lemma_without_waiter(all, *id, i as int);
        }
    }

    /// Refuse all clients that wait, first come first: the clients, which do not wait any longer, and
    /// what is sent to each of them.
    pub fn refusals(&mut self, err: Error) -> (r: Vec<(Waiter, Result<Box<Server>, Error>)>)
        ensures
            refused_all(*old(self), *final(self), err, r@),
    {
        let ghost all = self.waiting@;
        let mut out: Vec<(Waiter, Result<Box<Server>, Error>)> = Vec::new();
        assert(all.skip(0) == all);
        while self.waiting.len() > 0
            invariant
                *self == (Inner { waiting: self.waiting, ..*old(self) }),
                all == old(self).waiting@,
                out@.len() <= all.len(),
                self.waiting@ == all.skip(out@.len() as int),
                forall|i: int|
                    0 <= i < out@.len() ==> #[trigger] out@[i] == (
                        all[i],
                        Err::<Box<Server>, Error>(err),
                    ),
            decreases self.waiting@.len(),
        {
            let ghost n = out@.len() as int;
            out.push(self.next_refusal(err));
            assert(all.skip(n).skip(1) == all.skip(n + 1));
        }
        out
    }

    /// Tell all clients that wait that they wait in vain. What is sent to each of them is what
    /// [`Inner::refusals`] says; whether it is still there makes no difference.
    pub fn close_waiters(&mut self, err: Error)
        ensures
            *final(self) == (Inner { waiting: final(self).waiting, ..*old(self) }),
            final(self).waiting@.len() == 0,
    {
        let refusals = self.refusals(err);
        deliver_all(refusals);
    }
}

impl Default for Inner {
    fn default() -> (r: Self)
        ensures
            r.is_new(Config::standard(), 0),
            r.wf(),
    {
        Inner::new(Config::default(), 0)
    }
}

/// A pool never makes more connections than the most it may have, and a pool that is draining,
/// paused or offline makes them only for a client that waits.
pub proof fn creation_respects_limits(inner: Inner)
    ensures
        creation(inner) is Yes ==> inner.size() < inner.config.max,
        creation(inner) is Yes && (inner.draining || inner.paused || !inner.online)
            ==> inner.waiting@.len() > 0,
        inner.size() >= inner.config.max ==> creation(inner) == ShouldCreate::No,
{
}

/// A connection that was made because the pool asked for it never takes the pool above the most
/// connections it may have.
pub proof fn new_connections_respect_limits(
    before: Inner,
    after: Inner,
    conn: Box<Server>,
    now: Instant,
)
    requires
        creation(before) is Yes,
        put_back(before, after, conn, now),
    ensures
        after.size() == before.size() + 1,
        after.size() <= after.config.max,
{
    lemma_put_back(before, after, conn, now);
    if !shelved(before, after, conn) {
        let k = choose|k: int| #[trigger] assigned(before, after, *conn, now, k);
        assert(assigned(before, after, *conn, now, k));
    }
}

/// Only a connection that works, is between transactions, is not too old and belongs to a pool
/// that takes connections is used again.
pub proof fn only_fit_connections_are_kept(inner: Inner, server: Server, now: Instant, moving: bool)
    requires
        fate(inner, server, now, moving) == Fate::Kept,
    ensures
        server.stats.state == State::Idle,
        !server.must_close(),
        !server.replication_mode,
        !too_old(server, inner.config.max_age, now),
        inner.online || moving,
        !inner.paused,
        !inner.draining,
        serves(inner.taken@, server.id),
{
}

pub(crate) proof fn lemma_idle_split(conns: Seq<Box<Server>>, budget: nat, timeout: Duration, now: Instant)
    ensures
        idle_kept(conns, budget, timeout, now).len() + idle_closed(conns, budget, timeout, now).len()
            == conns.len(),
        idle_closed(conns, budget, timeout, now).len() <= budget,
        forall|i: int|
            0 <= i < idle_closed(conns, budget, timeout, now).len() ==> too_idle(
                *#[trigger] idle_closed(conns, budget, timeout, now)[i],
                timeout,
                now,
            ),
        budget == 0 ==> idle_kept(conns, budget, timeout, now) == conns,
        idle_closed(conns, budget, timeout, now).len() < budget ==> forall|i: int|
            0 <= i < idle_kept(conns, budget, timeout, now).len() ==> !too_idle(
                *#[trigger] idle_kept(conns, budget, timeout, now)[i],
                timeout,
                now,
            ),
    decreases conns.len(),
{
    if conns.len() > 0 {
        let rest = conns.skip(1);
        if budget > 0 && too_idle(*conns[0], timeout, now) {
            lemma_idle_split(rest, (budget - 1) as nat, timeout, now);
            let tail = idle_closed(rest, (budget - 1) as nat, timeout, now);
            let all = idle_closed(conns, budget, timeout, now);
            assert(all == seq![conns[0]] + tail);
            assert forall|i: int| 0 <= i < all.len() implies too_idle(
                *#[trigger] all[i],
                timeout,
                now,
            ) by {
                if i > 0 {
                    assert(all[i] == tail[i - 1]);
                }
            }
        } else {
            lemma_idle_split(rest, budget, timeout, now);
            let tail = idle_kept(rest, budget, timeout, now);
            let all = idle_kept(conns, budget, timeout, now);
            assert(all == seq![conns[0]] + tail);
            if budget == 0 {
                assert(seq![conns[0]] + rest == conns);
            }
            if idle_closed(conns, budget, timeout, now).len() < budget {
                assert forall|i: int| 0 <= i < all.len() implies !too_idle(
                    *#[trigger] all[i],
                    timeout,
                    now,
                ) by {
                    if i > 0 {
                        assert(all[i] == tail[i - 1]);
                    }
                }
            }
        }
    }
}

/// Closing idle connections never takes the pool below its fewest connections, closes only
/// connections that were idle for too long, and closes all of them if the fewest allow it.
pub proof fn closing_idle_respects_minimum(inner: Inner, now: Instant)
    requires
        inner.wf(),
    ensures
        ({
            let timeout = inner.config.idle_timeout;
            let kept = idle_kept(inner.idle_connections@, inner.surplus(), timeout, now);
            let closed = idle_closed(inner.idle_connections@, inner.surplus(), timeout, now);
            &&& kept.len() + closed.len() == inner.idle_connections@.len()
            &&& inner.size() >= inner.config.min ==> kept.len() + inner.taken@.len()
                >= inner.config.min
            &&& inner.size() <= inner.config.min ==> kept == inner.idle_connections@
            &&& forall|i: int|
                0 <= i < closed.len() ==> too_idle(*#[trigger] closed[i], timeout, now)
            &&& kept.len() + inner.taken@.len() > inner.config.min ==> forall|i: int|
                0 <= i < kept.len() ==> !too_idle(*#[trigger] kept[i], timeout, now)
        }),
{
    lemma_idle_split(
        inner.idle_connections@,
        inner.surplus(),
        inner.config.idle_timeout,
        now,
    );
}

/// A connection that a client took and gave back fit for use, while nobody else waits, is where it
/// was: the pool has the same connections idle and the same connections handed out.
pub proof fn checkout_round_trip(
    a: Inner,
    b: Inner,
    middle: Inner,
    c: Inner,
    request: Request,
    now: Instant,
    stats: Counts,
)
    requires
        a.wf(),
        checked_out(a, b, request),
        !serves(a.taken@, a.idle_connections@.last().id),
        b.waiting@.len() == 0,
        fate(b, *a.idle_connections@.last(), now, false) == Fate::Kept,
        settled(b, middle, *a.idle_connections@.last(), now, stats, false),
        put_back(middle, c, Box::new(refreshed(*a.idle_connections@.last())), now),
    ensures
        c.taken@ == a.taken@,
        c.idle_connections@ == a.idle_connections@.drop_last().push(
            Box::new(refreshed(*a.idle_connections@.last())),
        ),
        c.size() == a.size(),
{
    let conn = a.idle_connections@.last();
    crate::pool::taken::take_then_check_in(
        a.taken@,
        Mapping { client: request.id, server: conn.id },
    );
    assert(middle.taken@ == a.taken@);
    lemma_put_back(middle, c, Box::new(refreshed(*conn)), now);
}

/// A client that waits is never passed over for one that came later: the first one that is still
/// there has the connection, it and all clients before it are gone from the queue, and all after it
/// keep their places. The connection goes idle only if all who waited are gone.
pub proof fn first_come_first_served(
    before: Inner,
    after: Inner,
    conn: Box<Server>,
    alive: Seq<bool>,
    now: Instant,
    k: int,
)
    requires
        offered_in_turn(before, after, conn, alive, now),
        0 <= k < alive.len() ==> alive[k],
        forall|j: int| 0 <= j < k && j < alive.len() ==> !#[trigger] alive[j],
        0 <= k,
    ensures
        after.size() == before.size() + 1,
        k < alive.len() ==> {
            &&& after.waiting@ == before.waiting@.skip(k + 1)
            &&& after.taken@ == before.taken@.push(
                Mapping { client: before.waiting@[k].request.id, server: conn.id },
            )
            &&& after.idle_connections == before.idle_connections
            &&& after.counts.server_assignment_count
                == (before.counts.server_assignment_count + 1) as usize
        },
        k >= alive.len() ==> {
            &&& after.waiting@.len() == 0
            &&& after.taken == before.taken
            &&& after.idle_connections@ == before.idle_connections@.push(conn)
            &&& after.counts == before.counts
        },
{
    if k < alive.len() {
        assert(alive[k]);
        let m = choose|m: int| #[trigger]
            assigned(before, after, *conn, now, m) && alive[m] && forall|j: int|
                0 <= j < m ==> !#[trigger] alive[j];
        if m < k {
            assert(!alive[m]);
        } else if k < m {
            assert(!alive[k]);
        }
    } else if exists|m: int| #[trigger]
        assigned(before, after, *conn, now, m) && alive[m] && forall|j: int|
            0 <= j < m ==> !#[trigger] alive[j] {
        let m = choose|m: int| #[trigger]
            assigned(before, after, *conn, now, m) && alive[m] && forall|j: int|
                0 <= j < m ==> !#[trigger] alive[j];
        assert(!alive[m]);
    }
}

proof fn lemma_offers(states: Seq<Inner>, conn: Box<Server>, j: int)
    requires
        0 <= j < states.len(),
        forall|i: int|
            0 <= i < states.len() - 1 ==> (#[trigger] states[i]).waiting@.len() > 0
                && sent_to_first(
                states[i],
                states[i + 1],
                Ok::<Box<Server>, Error>(conn),
                (states[i].waiting@[0], Ok::<Box<Server>, Error>(conn)),
            ),
    ensures
        j <= states[0].waiting@.len(),
        states[j] == (Inner { waiting: states[j].waiting, ..states[0] }),
        states[j].waiting@ == states[0].waiting@.skip(j),
    decreases j,
{
    if j == 0 {
        assert(states[0].waiting@.skip(0) == states[0].waiting@);
    } else {
        lemma_offers(states, conn, j - 1);
        assert(states[j - 1].waiting@.len() > 0);
        assert(states[0].waiting@.skip(j - 1).skip(1) == states[0].waiting@.skip(j));
    }
}

/// Offering a connection to one client after the other, as long as they turn out to be gone, and
/// taking note of the one that is not, is giving the connection to the first client that is still
/// there.
pub proof fn offers_serve_the_first_alive(
    states: Seq<Inner>,
    middle: Inner,
    after: Inner,
    conn: Box<Server>,
    now: Instant,
)
    requires
        states.len() > 0,
        forall|i: int|
            0 <= i < states.len() - 1 ==> (#[trigger] states[i]).waiting@.len() > 0
                && sent_to_first(
                states[i],
                states[i + 1],
                Ok::<Box<Server>, Error>(conn),
                (states[i].waiting@[0], Ok::<Box<Server>, Error>(conn)),
            ),
        states.last().waiting@.len() > 0,
        sent_to_first(
            states.last(),
            middle,
            Ok::<Box<Server>, Error>(conn),
            (states.last().waiting@[0], Ok::<Box<Server>, Error>(conn)),
        ),
        noted(middle, after, states.last().waiting@[0].request, conn.id, now),
    ensures
        assigned(states[0], after, *conn, now, states.len() - 1),
        offered_in_turn(
            states[0],
            after,
            conn,
            Seq::new(states[0].waiting@.len(), |i: int| i == states.len() - 1),
            now,
        ),
{
    let k = states.len() - 1;
    lemma_offers(states, conn, k);
    assert(states[0].waiting@.skip(k).skip(1) == states[0].waiting@.skip(k + 1));
    let alive = Seq::new(states[0].waiting@.len(), |i: int| i == k);
    assert(assigned(states[0], after, *conn, now, k) && alive[k]);
}

/// A connection that was out while its pool was moved ends up in the pool that took the old one's
/// place, even before that one is online: the old pool sends it on, and the new one keeps it if it
/// is fit.
pub proof fn moved_connections_are_kept(
    source: Inner,
    destination: Inner,
    server: Server,
    now: Instant,
    moving: bool,
)
    requires
        source.moved == Some(destination.id),
        source.id != destination.id,
        destination.moved is None,
        serves(destination.taken@, server.id),
        !destination.paused,
        !destination.draining,
        !too_old(server, destination.config.max_age, now),
        server.stats.state == State::Idle,
        !server.must_close(),
        !server.replication_mode,
    ensures
        fate(source, server, now, moving) == Fate::Forwarded,
        fate(destination, sent_on(server, destination.id), now, true) == Fate::Kept,
{
}

/// How many idle connections have this identifier.
pub open spec fn times_idle(conns: Seq<Box<Server>>, id: BackendKeyData) -> nat
    decreases conns.len(),
{
    if conns.len() == 0 {
        0
    } else {
        times_idle(conns.drop_last(), id) + if conns.last().id == id {
            1nat
        } else {
            0
        }
    }
}

/// In how many places the pool has a connection: idle, or handed out.
pub open spec fn places(inner: Inner, id: BackendKeyData) -> nat {
    times_idle(inner.idle_connections@, id) + times_taken(inner.taken@, id)
}

/// Nobody shares a connection: handing one out leaves every connection in as many places as it was
/// in, so that one which was in one place still is.
pub proof fn taking_shares_nothing(
    before: Inner,
    after: Inner,
    request: Request,
    id: BackendKeyData,
)
    requires
        checked_out(before, after, request),
    ensures
        places(after, id) == places(before, id),
{
    let mapping = Mapping { client: request.id, server: before.idle_connections@.last().id };
    assert(before.taken@.push(mapping).drop_last() == before.taken@);
}

/// Nobody shares a connection: one that is put into the pool, be it for a client that waits or to
/// be idle, is in one place more than before, and all other ones stay where they are.
pub proof fn putting_shares_nothing(
    before: Inner,
    after: Inner,
    conn: Box<Server>,
    now: Instant,
    id: BackendKeyData,
)
    requires
        put_back(before, after, conn, now),
    ensures
        places(after, id) == places(before, id) + if id == conn.id {
            1int
        } else {
            0
        },
{
    lemma_put_back(before, after, conn, now);
    if shelved(before, after, conn) {
        assert(before.idle_connections@.push(conn).drop_last() == before.idle_connections@);
    } else {
        let k = choose|k: int| #[trigger] assigned(before, after, *conn, now, k);
        let mapping = Mapping { client: before.waiting@[k].request.id, server: conn.id };
        assert(before.taken@.push(mapping).drop_last() == before.taken@);
    }
}

/// Nobody shares a connection: one that is given back and used again is in as many places as
/// before, one that is not used again is in one place less, and all other ones stay where they are.
pub proof fn checking_in_shares_nothing(
    before: Inner,
    after: Inner,
    server: Server,
    now: Instant,
    stats: Counts,
    moving: bool,
    r: Result<CheckInResult, Error>,
    id: BackendKeyData,
)
    requires
        checked_in(before, after, server, now, stats, moving, r),
    ensures
        places(after, id) == places(before, id) - match fate(before, server, now, moving) {
            Fate::Forwarded | Fate::Untracked | Fate::Kept => 0int,
            _ => if id == server.id {
                1
            } else {
                0
            },
        },
{
    reveal(checked_in);
    match fate(before, server, now, moving) {
        Fate::Forwarded | Fate::Untracked => {},
        Fate::Kept => {
            let conn = Box::new(refreshed(server));
            let middle = choose|middle: Inner| #[trigger]
                settled(before, middle, server, now, stats, moving) && put_back(
                    middle,
                    after,
                    conn,
                    now,
                );
            lemma_times_without(before.taken@, server.id, id);
            putting_shares_nothing(middle, after, conn, now, id);
        },
        _ => {
            lemma_times_without(before.taken@, server.id, id);
        },
    }
}

} // verus!
