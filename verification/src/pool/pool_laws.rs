//! What a pool owes to its clients and to its connections, told by what can be seen of them.

#[allow(unused_imports)]
use crate::config::general::PoolerMode;
#[allow(unused_imports)]
use crate::net::{BackendKeyData, Parameter};
#[allow(unused_imports)]
use crate::pool::config::Config;
#[allow(unused_imports)]
use crate::pool::error::Error;
#[allow(unused_imports)]
use crate::pool::inner::{
    dumped, left_open, assigned, checked_in, contents, creation, fate, handed_out, idle_closed,
    idle_kept, lemma_idle_split, lemma_put_back, put_back, refreshed, retired, settled, shelved,
    thinned, too_idle, too_old, without_waiter, CheckInResult, Fate, Inner, ShouldCreate, Waiter,
};
#[allow(unused_imports)]
use crate::pool::pool::{
    after_healthcheck, after_waiting, all_put, asked, configured, conns_moved, healthcheck_due, left,
    put_on_hold, serves_clients, startup_params,
    lemma_all_put, moving_loses_nothing, released, released_at, Checked, Checkout, GetOutcome, Pool,
};
#[allow(unused_imports)]
use crate::pool::taken::{last_for, lemma_without_len, serves, Mapping, Request};
#[allow(unused_imports)]
use crate::server::connection::{ConnectReason, DisconnectReason, Server};
#[allow(unused_imports)]
use crate::server::stats::{Counts, State, Stats};
#[allow(unused_imports)]
use crate::time::{Duration, Instant};
use vstd::prelude::*;

verus! {

/// So much time has passed since then.
pub open spec fn has_passed(span: Duration, since: Instant, now: Instant) -> bool {
    since.nanos + span.nanos <= now.nanos || span.nanos == 0
}

/// How old the connection may become: what was set for it, or else what the pool says.
pub open spec fn allowed_age(c: Server, pool: Inner) -> Duration {
    if c.max_age is Some {
        c.max_age->Some_0
    } else {
        pool.config.max_age
    }
}

/// The connection was made too long ago.
pub open spec fn outlived(c: Server, pool: Inner, now: Instant) -> bool {
    has_passed(allowed_age(c, pool), c.stats.created_at, now)
}

/// The connection with a reason to be closed, if it had none before.
pub open spec fn closed_as(c: Server, reason: DisconnectReason) -> Server {
    if c.disconnect_reason is Some {
        c
    } else {
        Server { disconnect_reason: Some(reason), ..c }
    }
}

/// Retiring connections goes by when they were made, whatever they were used for since: every idle
/// connection that was made too long ago is closed for being old, every other one stays idle, and
/// what was idle for how long does not matter.
pub proof fn old_connections_are_retired(
    before: Inner,
    after: Inner,
    closed: Seq<Server>,
    now: Instant,
    i: int,
)
    requires
        retired(before, after, closed, now),
        0 <= i < before.idle_connections@.len(),
    ensures
        outlived(*before.idle_connections@[i], before, now) ==> closed.contains(
            closed_as(*before.idle_connections@[i], DisconnectReason::Old),
        ),
        !outlived(*before.idle_connections@[i], before, now) ==> after.idle_connections@.contains(
            before.idle_connections@[i],
        ),
        after.idle_connections@.len() + closed.len() == before.idle_connections@.len(),
        after.taken == before.taken && after.waiting == before.waiting && after.online
            == before.online,
{
    broadcast use vstd::seq_lib::group_filter_ensures;

    let idle = before.idle_connections@;
    let base = before.config.max_age;
    let keep = |c: Box<Server>| !too_old(*c, base, now);
    let close = |c: Box<Server>| too_old(*c, base, now);
    if outlived(*idle[i], before, now) {
        assert(close(idle[i]));
        assert(idle.filter(close).contains(idle[i]));
        let k = choose|k: int| 0 <= k < idle.filter(close).len() && idle.filter(close)[k] == idle[i];
        assert(closed[k] == closed_as(*idle[i], DisconnectReason::Old));
    } else {
        assert(keep(idle[i]));
        assert(idle.filter(keep).contains(idle[i]));
    }
}

/// What is left after connections were retired is young enough, and what was closed was not.
pub proof fn only_old_connections_are_retired(
    before: Inner,
    after: Inner,
    closed: Seq<Server>,
    now: Instant,
    k: int,
)
    requires
        retired(before, after, closed, now),
    ensures
        0 <= k < after.idle_connections@.len() ==> !outlived(
            *after.idle_connections@[k],
            before,
            now,
        ),
        0 <= k < closed.len() ==> outlived(closed[k], before, now) && closed[k].disconnect_reason
            is Some,
{
    broadcast use vstd::seq_lib::group_filter_ensures;

    let idle = before.idle_connections@;
    let base = before.config.max_age;
    let keep = |c: Box<Server>| !too_old(*c, base, now);
    let close = |c: Box<Server>| too_old(*c, base, now);
    if 0 <= k < after.idle_connections@.len() {
        assert(keep(idle.filter(keep)[k]));
    }
    if 0 <= k < closed.len() {
        assert(close(idle.filter(close)[k]));
    }
}

/// The connection has not been used for too long.
pub open spec fn unused_too_long(c: Server, pool: Inner, now: Instant) -> bool {
    has_passed(pool.config.idle_timeout, c.stats.last_used, now)
}

proof fn lemma_idle_cut(conns: Seq<Box<Server>>, budget: nat, timeout: Duration, now: Instant) -> (n:
    int)
    ensures
        0 <= n <= conns.len(),
        idle_kept(conns, budget, timeout, now) == conns.take(n).filter(
            |c: Box<Server>| !too_idle(*c, timeout, now),
        ) + conns.skip(n),
        idle_closed(conns, budget, timeout, now) == conns.take(n).filter(
            |c: Box<Server>| too_idle(*c, timeout, now),
        ),
        n < conns.len() ==> idle_closed(conns, budget, timeout, now).len() == budget,
    decreases conns.len(),
{
    let keep = |c: Box<Server>| !too_idle(*c, timeout, now);
    let close = |c: Box<Server>| too_idle(*c, timeout, now);
    if conns.len() == 0 || budget == 0 {
        lemma_idle_split(conns, budget, timeout, now);
        reveal(Seq::filter);
        assert(conns.take(0).filter(keep) == Seq::<Box<Server>>::empty());
        assert(conns.take(0).filter(close) == Seq::<Box<Server>>::empty());
        assert(conns.skip(0) == conns);
        assert(Seq::<Box<Server>>::empty() + conns == conns);
        assert(idle_closed(conns, budget, timeout, now) == Seq::<Box<Server>>::empty());
        0
    } else {
        let rest = conns.skip(1);
        let one = seq![conns[0]];
        let idle = too_idle(*conns[0], timeout, now);
        let left = if idle {
            (budget - 1) as nat
        } else {
            budget
        };
        let m = lemma_idle_cut(rest, left, timeout, now);
        assert(conns.take(m + 1) == one + rest.take(m));
        assert(conns.skip(m + 1) == rest.skip(m));
        Seq::filter_distributes_over_add(one, rest.take(m), keep);
        Seq::filter_distributes_over_add(one, rest.take(m), close);
        reveal_with_fuel(Seq::filter, 2);
        assert(one.drop_last() == Seq::<Box<Server>>::empty());
        if idle {
            assert(one.filter(keep) == Seq::<Box<Server>>::empty());
            assert(one.filter(close) == one);
        } else {
            assert(one.filter(keep) == one);
            assert(one.filter(close) == Seq::<Box<Server>>::empty());
        }
        let kept = rest.take(m).filter(keep);
        assert(one + (kept + rest.skip(m)) == (one + kept) + rest.skip(m));
        assert(Seq::<Box<Server>>::empty() + kept == kept);
        assert(Seq::<Box<Server>>::empty() + rest.take(m).filter(close) == rest.take(m).filter(
            close,
        ));
        m + 1
    }
}

/// Connections that were not used for too long are closed for being idle, those that were not used
/// for longest first, as long as the pool has more than the fewest connections. Up to some place in
/// the list all of them are closed and all others stay; behind that place all stay, which is only
/// so once the pool is down to the fewest. `n` is that place.
pub proof fn unused_connections_are_closed(
    before: Inner,
    after: Inner,
    closed: Seq<Server>,
    now: Instant,
) -> (n: int)
    requires
        thinned(before, after, closed, now),
    ensures
        0 <= n <= before.idle_connections@.len(),
        after.idle_connections@ == before.idle_connections@.take(n).filter(
            |c: Box<Server>| !unused_too_long(*c, before, now),
        ) + before.idle_connections@.skip(n),
        closed.len() == before.idle_connections@.take(n).filter(
            |c: Box<Server>| unused_too_long(*c, before, now),
        ).len(),
        n < before.idle_connections@.len() ==> after.idle_connections@.len() + after.taken@.len()
            <= before.config.min,
        before.idle_connections@.len() + before.taken@.len() >= before.config.min
            ==> after.idle_connections@.len() + after.taken@.len() >= before.config.min,
        before.idle_connections@.len() + before.taken@.len() <= before.config.min ==> closed.len()
            == 0,
        after.taken == before.taken && after.waiting == before.waiting,
{
    let idle = before.idle_connections@;
    let timeout = before.config.idle_timeout;
    let n = lemma_idle_cut(idle, before.surplus(), timeout, now);
    assert((|c: Box<Server>| !too_idle(*c, timeout, now)) =~= (|c: Box<Server>|
        !unused_too_long(*c, before, now)));
    assert((|c: Box<Server>| too_idle(*c, timeout, now)) =~= (|c: Box<Server>|
        unused_too_long(*c, before, now)));
    n
}

/// Every connection that is closed for being idle was not used for too long, and says why it is
/// closed.
pub proof fn only_unused_connections_are_closed(
    before: Inner,
    after: Inner,
    closed: Seq<Server>,
    now: Instant,
    k: int,
)
    requires
        thinned(before, after, closed, now),
        0 <= k < closed.len(),
    ensures
        unused_too_long(closed[k], before, now),
        closed[k].disconnect_reason is Some,
        exists|i: int|
            0 <= i < before.idle_connections@.len() && closed[k] == closed_as(
                *#[trigger] before.idle_connections@[i],
                DisconnectReason::Idle,
            ),
{
    let idle = before.idle_connections@;
    let timeout = before.config.idle_timeout;
    lemma_idle_split(idle, before.surplus(), timeout, now);
    let list = idle_closed(idle, before.surplus(), timeout, now);
    assert(too_idle(*list[k], timeout, now));
    lemma_idle_closed_members(idle, before.surplus(), timeout, now, k);
    let i = choose|i: int| 0 <= i < idle.len() && idle[i] == list[k];
    assert(closed[k] == closed_as(*idle[i], DisconnectReason::Idle));
}

proof fn lemma_idle_closed_members(
    conns: Seq<Box<Server>>,
    budget: nat,
    timeout: Duration,
    now: Instant,
    k: int,
)
    requires
        0 <= k < idle_closed(conns, budget, timeout, now).len(),
    ensures
        conns.contains(idle_closed(conns, budget, timeout, now)[k]),
    decreases conns.len(),
{
    if conns.len() > 0 {
        let rest = conns.skip(1);
        if budget > 0 && too_idle(*conns[0], timeout, now) {
            if k == 0 {
                assert(conns.contains(conns[0]));
            } else {
                let tail = idle_closed(rest, (budget - 1) as nat, timeout, now);
                lemma_idle_closed_members(rest, (budget - 1) as nat, timeout, now, k - 1);
                let i = choose|i: int| 0 <= i < rest.len() && rest[i] == tail[k - 1];
                assert(conns[i + 1] == tail[k - 1]);
            }
        } else {
            lemma_idle_closed_members(rest, budget, timeout, now, k);
            let tail = idle_closed(rest, budget, timeout, now);
            let i = choose|i: int| 0 <= i < rest.len() && rest[i] == tail[k];
            assert(conns[i + 1] == tail[k]);
        }
    }
}

/// The connection that is handed out is the one that was given back last: what went idle most
/// recently is in use again first. The pool knows who has it.
pub proof fn the_last_one_back_is_the_first_out(
    a: Inner,
    b: Inner,
    c: Inner,
    conn: Box<Server>,
    request: Request,
    handed: Option<Box<Server>>,
)
    requires
        shelved(a, b, conn),
        handed_out(b, c, request, handed),
    ensures
        handed == Some(conn),
        c.idle_connections@ == a.idle_connections@,
        c.taken@ == a.taken@.push(Mapping { client: request.id, server: conn.id }),
        last_for(c.taken@, request.id) == Some(conn.id),
{
    assert(b.idle_connections@.drop_last() == a.idle_connections@);
}

/// A client gets nothing only if nothing is idle; what it gets was idle, is so no longer, and is known
/// to be handed to it. Nothing else changes.
pub proof fn clients_get_what_is_idle(
    before: Inner,
    after: Inner,
    request: Request,
    handed: Option<Box<Server>>,
)
    requires
        handed_out(before, after, request, handed),
    ensures
        handed is None <==> before.idle_connections@.len() == 0,
        handed matches Some(conn) ==> {
            &&& before.idle_connections@.contains(conn)
            &&& after.idle_connections@.len() == before.idle_connections@.len() - 1
            &&& after.taken@.len() == before.taken@.len() + 1
            &&& after.taken@.last().client == request.id && after.taken@.last().server == conn.id
        },
        after.waiting == before.waiting && after.counts == before.counts && after.online
            == before.online,
{
    if before.idle_connections@.len() > 0 {
        let last = before.idle_connections@.last();
        assert(before.idle_connections@[before.idle_connections@.len() - 1] == last);
    }
}

/// A connection is made exactly if the pool has fewer than the most and either a client waits while
/// nothing is idle, or the pool serves clients, is neither paused nor draining, and has fewer than
/// the fewest. A client that waits is the reason that counts.
pub proof fn connections_are_made_when_needed(inner: Inner)
    ensures
        ({
            let size = inner.idle_connections@.len() + inner.taken@.len();
            let wanted = inner.waiting@.len() > 0 && inner.idle_connections@.len() == 0;
            let too_few = size < inner.config.min && inner.online && !inner.paused
                && !inner.draining;
            match creation(inner) {
                ShouldCreate::No => size >= inner.config.max || !wanted && !too_few,
                ShouldCreate::Yes { reason, min, max, idle, taken, waiting } => {
                    &&& size < inner.config.max
                    &&& wanted || too_few
                    &&& wanted <==> reason == ConnectReason::ClientWaiting
                    &&& !wanted <==> reason == ConnectReason::BelowMin
                    &&& min == inner.config.min && max == inner.config.max
                    &&& inner.wf() ==> idle == inner.idle_connections@.len() && taken
                        == inner.taken@.len()
                },
            }
        }),
{
}

/// A client that stops waiting leaves the queue, and nobody else does: all others keep their places.
/// `i` is where it was, or the end of the queue if it was not there.
pub proof fn only_one_client_stops_waiting(waiting: Seq<Waiter>, id: BackendKeyData) -> (i: int)
    ensures
        0 <= i <= waiting.len(),
        forall|j: int| 0 <= j < i ==> (#[trigger] waiting[j]).request.id != id,
        i < waiting.len() ==> waiting[i].request.id == id && without_waiter(waiting, id)
            == waiting.remove(i),
        i == waiting.len() ==> without_waiter(waiting, id) == waiting,
    decreases waiting.len(),
{
    if waiting.len() == 0 {
        0
    } else if waiting[0].request.id == id {
        assert(waiting.skip(1) == waiting.remove(0));
        0
    } else {
        let rest = waiting.skip(1);
        let i = only_one_client_stops_waiting(rest, id) + 1;
        assert forall|j: int| 0 <= j < i implies (#[trigger] waiting[j]).request.id != id by {
            if j > 0 {
                assert(waiting[j] == rest[j - 1]);
            }
        }
        if i < waiting.len() {
            assert(waiting[i] == rest[i - 1]);
            assert(seq![waiting[0]] + rest.remove(i - 1) == waiting.remove(i));
        } else {
            assert(seq![waiting[0]] + rest == waiting);
        }
        i
    }
}

/// The connection of a client is the one that it was handed last. `k` is any connection that was
/// handed out.
pub proof fn the_latest_connection_is_the_peer(taken: Seq<Mapping>, client: BackendKeyData, k: int)
    requires
        0 <= k < taken.len(),
    ensures
        taken[k].client == client ==> last_for(taken, client) is Some,
        last_for(taken, client) matches Some(server) ==> exists|i: int|
            {
                &&& 0 <= i < taken.len()
                &&& (#[trigger] taken[i]).client == client && taken[i].server == server
                &&& taken[k].client == client ==> k <= i
            },
    decreases taken.len(),
{
    let n = taken.len() - 1;
    let short = taken.drop_last();
    if taken[n].client != client {
        if n > 0 {
            let j = if k < n {
                k
            } else {
                0
            };
            the_latest_connection_is_the_peer(short, client, j);
            if last_for(taken, client) is Some {
                let i = choose|i: int|
                    {
                        &&& 0 <= i < short.len()
                        &&& (#[trigger] short[i]).client == client && Some(short[i].server)
                            == last_for(taken, client)
                        &&& short[j].client == client ==> j <= i
                    };
                assert(taken[i] == short[i]);
            }
        }
    } else {
        assert(taken[n].client == client);
    }
}

/// The pool handed the connection out.
pub open spec fn is_out(pool: Inner, id: BackendKeyData) -> bool {
    exists|i: int| 0 <= i < pool.taken@.len() && (#[trigger] pool.taken@[i]).server == id
}

/// Another pool took the place of this one.
pub open spec fn is_replaced(pool: Inner) -> bool {
    pool.moved is Some && pool.moved->Some_0 != pool.id
}

/// The pool takes connections back now.
pub open spec fn takes_back(pool: Inner, moving: bool) -> bool {
    (pool.online || moving) && !pool.paused && !pool.draining
}

/// The connection can serve another client: it works, it is between transactions, no message is
/// halfway through, it does not stream changes, and it is young enough.
pub open spec fn is_fit(c: Server, pool: Inner, now: Instant) -> bool {
    &&& c.stats.state == State::Idle
    &&& !(c.stream is Some && c.stream->Some_0.io_in_progress)
    &&& !c.replication_mode
    &&& !outlived(c, pool, now)
}

/// A connection that is given back serves others again if and only if it is fit and the pool takes
/// connections back; a connection that the pool did not hand out is refused, and one whose pool was
/// replaced is sent on, with nothing else done.
pub proof fn fit_connections_serve_again(
    before: Inner,
    after: Inner,
    server: Server,
    now: Instant,
    stats: Counts,
    moving: bool,
    r: Result<CheckInResult, Error>,
)
    requires
        checked_in(before, after, server, now, stats, moving, r),
    ensures
        is_replaced(before) ==> {
            &&& after == before
            &&& r matches Ok(c) && c.closed is None && !c.replenish && !c.server_error && (
            c.forward matches Some(f) && f.pool == before.moved->Some_0 && f.now == now && f.stats
                == stats && f.server.stats.pool_id == f.pool && f.server.id == server.id
                && f.server.stats.state == server.stats.state)
        },
        !is_replaced(before) && !is_out(before, server.id) ==> after == before && r == Err::<
            CheckInResult,
            Error,
        >(Error::UntrackedConnCheckin(server.id)),
        !is_replaced(before) && is_out(before, server.id) ==> {
            let again = takes_back(before, moving) && is_fit(server, before, now);
            &&& r matches Ok(c) && {
                &&& c.forward is None
                &&& c.closed is None <==> again
                &&& c.server_error <==> server.stats.state == State::Error
                &&& c.replenish <==> before.moved is None && !again && (server.stats.state
                    == State::Error || takes_back(before, moving))
            }
            &&& !again ==> after.idle_connections == before.idle_connections && after.waiting
                == before.waiting
            &&& again && before.waiting@.len() == 0 ==> after.idle_connections@
                == before.idle_connections@.push(Box::new(Server { re_synced: false, ..server }))
        },
{
    reveal(checked_in);
    assert(is_out(before, server.id) == serves(before.taken@, server.id));
    if fate(before, server, now, moving) == Fate::Kept {
        let conn = Box::new(refreshed(server));
        let middle = choose|middle: Inner| #[trigger]
            settled(before, middle, server, now, stats, moving) && put_back(
                middle,
                after,
                conn,
                now,
            );
        lemma_put_back(middle, after, conn, now);
    }
}

/// A connection that is not used again is closed for the first of these reasons that holds: it is
/// broken, the pool takes none back (which is no fault of the connection), it is too old, it was left
/// in the middle of something, it streams changes, it is out of step. Each of these is counted where
/// there is a counter for it.
pub proof fn closing_has_a_reason(
    before: Inner,
    after: Inner,
    server: Server,
    now: Instant,
    stats: Counts,
    moving: bool,
    c: CheckInResult,
)
    requires
        checked_in(before, after, server, now, stats, moving, Ok(c)),
        c.closed is Some,
        server.disconnect_reason is None,
        before.errors < usize::MAX,
        before.force_close < usize::MAX,
        before.out_of_sync < usize::MAX,
    ensures
        ({
            let s = *c.closed->Some_0;
            let halfway = server.stream is Some && server.stream->Some_0.io_in_progress;
            let reason = if server.stats.state == State::Error {
                Some(DisconnectReason::Error)
            } else if !takes_back(before, moving) {
                None
            } else if outlived(server, before, now) {
                Some(DisconnectReason::Old)
            } else if server.stats.state == State::ForceClose || halfway {
                Some(DisconnectReason::ForceClose)
            } else if server.replication_mode {
                Some(DisconnectReason::ReplicationMode)
            } else {
                Some(DisconnectReason::OutOfSync)
            };
            &&& s.disconnect_reason == reason
            &&& s.id == server.id && s.stats == server.stats
            &&& after.errors - before.errors == if reason == Some(DisconnectReason::Error) {
                1int
            } else {
                0
            }
            &&& after.force_close - before.force_close == if reason == Some(
                DisconnectReason::ForceClose,
            ) {
                1int
            } else {
                0
            }
            &&& after.out_of_sync - before.out_of_sync == if reason == Some(
                DisconnectReason::OutOfSync,
            ) {
                1int
            } else {
                0
            }
        }),
{
    reveal(checked_in);
}

/// What happened on a connection is added to what happened in the pool when the connection is given
/// back, whether it is used again or not.
pub proof fn what_happened_is_counted(
    before: Inner,
    after: Inner,
    server: Server,
    now: Instant,
    stats: Counts,
    moving: bool,
    r: Result<CheckInResult, Error>,
)
    requires
        checked_in(before, after, server, now, stats, moving, r),
        before.can_count(stats),
        !is_replaced(before),
        is_out(before, server.id),
    ensures
        after.counts.xact_count == before.counts.xact_count + stats.transactions,
        after.counts.query_count == before.counts.query_count + stats.queries,
        after.counts.rollbacks == before.counts.rollbacks + stats.rollbacks,
        after.counts.healthchecks == before.counts.healthchecks + stats.healthchecks,
        after.counts.errors == before.counts.errors + stats.errors,
        after.counts.sent == before.counts.sent + stats.bytes_sent,
        after.counts.received == before.counts.received + stats.bytes_received,
        after.counts.reads == before.counts.reads && after.counts.writes == before.counts.writes,
{
    reveal(checked_in);
    assert(is_out(before, server.id) == serves(before.taken@, server.id));
    if fate(before, server, now, moving) == Fate::Kept {
        let conn = Box::new(refreshed(server));
        let middle = choose|middle: Inner| #[trigger]
            settled(before, middle, server, now, stats, moving) && put_back(
                middle,
                after,
                conn,
                now,
            );
        lemma_put_back(middle, after, conn, now);
        if !shelved(middle, after, conn) {
            let k = choose|k: int| #[trigger] assigned(middle, after, *conn, now, k);
        }
    }
}

/// A client that waited is served at the cost of its whole wait: from when it asked until now.
pub proof fn waits_are_counted(before: Inner, after: Inner, conn: Server, now: Instant, k: int)
    requires
        assigned(before, after, conn, now, k),
        before.can_assign(now),
        before.waiting@[k].request.created_at.nanos <= now.nanos,
    ensures
        after.counts.wait_time.nanos - before.counts.wait_time.nanos == now.nanos
            - before.waiting@[k].request.created_at.nanos,
        after.counts.server_assignment_count == before.counts.server_assignment_count + 1,
        after.taken@.last().client == before.waiting@[k].request.id,
        after.taken@.last().server == conn.id,
        after.waiting@.len() == before.waiting@.len() - k - 1,
{
    let asked = before.waiting@[k];
    assert(before.counts.wait_time.nanos + now.since(asked.request.created_at)
        <= crate::time::MAX_NANOS);
}

/// A client that asks a pool which is offline is refused; otherwise it gets an idle connection if
/// there is one, and the pool counts the read or the write.
pub proof fn asking_is_answered(
    before: Pool,
    after: Pool,
    request: Request,
    r: Result<Checkout, Error>,
)
    requires
        asked(before, after, request, r),
        before.inner.counts.reads < usize::MAX,
        before.inner.counts.writes < usize::MAX,
        before.inner.counts.server_assignment_count < usize::MAX,
    ensures
        !before.inner.online <==> r is Err,
        r matches Err(e) ==> e == Error::Offline && after == before,
        r matches Ok(c) ==> {
            &&& c.paused == before.inner.paused
            &&& c.server is Some <==> before.inner.idle_connections@.len() > 0
            &&& c.server is None ==> after == before
            &&& c.server matches Some(conn) ==> {
                let (x, y) = (before.inner.counts, after.inner.counts);
                &&& after.inner.idle_connections@.push(conn) == before.inner.idle_connections@
                &&& after.inner.taken@ == before.inner.taken@.push(
                    Mapping { client: request.id, server: conn.id },
                )
                &&& y.server_assignment_count == x.server_assignment_count + 1
                &&& request.read ==> y.reads == x.reads + 1 && y.writes == x.writes
                &&& !request.read ==> y.writes == x.writes + 1 && y.reads == x.reads
                &&& before.checked_out_count < usize::MAX ==> after.checked_out_count
                    == before.checked_out_count + 1
            }
        },
{
    if r is Ok && before.inner.idle_connections@.len() > 0 {
        let idle = before.inner.idle_connections@;
        assert(idle.drop_last().push(idle.last()) == idle);
    }
}

/// A connection is checked before it is handed out if it never was, or if the last check is at least
/// as long ago as the pool says.
pub proof fn stale_connections_are_checked(pool: Pool, server: Server, now: Instant)
    requires
        pool.config.healthcheck_interval.nanos <= crate::time::MAX_NANOS,
    ensures
        server.stats.last_healthcheck is None ==> healthcheck_due(pool, server, now),
        server.stats.last_healthcheck matches Some(last) ==> (healthcheck_due(pool, server, now)
            <==> has_passed(pool.config.healthcheck_interval, last, now)),
{
}

/// The health of a pool is what its last check says: a connection that passes is served, and one
/// that fails is not, but given back with the reason; another one is tried only if the server
/// answered with an error.
pub proof fn checks_decide_on_health(
    before: Pool,
    after: Pool,
    server: Box<Server>,
    outcome: Result<(), Error>,
    r: Checked,
)
    requires
        after_healthcheck(before, after, server, outcome, r),
    ensures
        after.health <==> outcome is Ok,
        after.inner == before.inner,
        match r {
            Checked::Serve(s) => outcome is Ok && s == server,
            Checked::Retry(s) => outcome == Err::<(), Error>(Error::HealthcheckError) && *s
                == closed_as(*server, DisconnectReason::Unhealthy),
            Checked::GiveUp(s, e) => outcome == Err::<(), Error>(e) && e != Error::HealthcheckError
                && *s == closed_as(*server, DisconnectReason::Unhealthy),
        },
{
}

/// A client that got no connection in time, or an error, leaves the pool unhealthy; one that got a
/// connection leaves it as it was.
pub proof fn failed_waits_make_a_pool_unhealthy(
    before: Pool,
    after: Pool,
    outcome: GetOutcome,
    r: Result<Box<Server>, Error>,
)
    requires
        after_waiting(before, after, outcome, r),
    ensures
        r is Ok ==> after == before && outcome == GetOutcome::Connected(r->Ok_0),
        r is Err ==> !after.health && !(outcome is Connected) && after.inner == before.inner,
        outcome is TimedOut ==> r == Err::<Box<Server>, Error>(Error::CheckoutTimeout),
        outcome matches GetOutcome::Failed(e) ==> r == Err::<Box<Server>, Error>(e),
{
}

proof fn lemma_one_less_out(
    before: Inner,
    after: Inner,
    server: Server,
    now: Instant,
    stats: Counts,
    moving: bool,
    r: Result<CheckInResult, Error>,
)
    requires
        checked_in(before, after, server, now, stats, moving, r),
        !is_replaced(before),
        is_out(before, server.id),
        before.waiting@.len() == 0,
    ensures
        after.taken@.len() == before.taken@.len() - 1,
{
    reveal(checked_in);
    assert(is_out(before, server.id) == serves(before.taken@, server.id));
    lemma_without_len(before.taken@, server.id);
    if fate(before, server, now, moving) == Fate::Kept {
        let conn = Box::new(refreshed(server));
        let middle = choose|middle: Inner| #[trigger]
            settled(before, middle, server, now, stats, moving) && put_back(
                middle,
                after,
                conn,
                now,
            );
        lemma_put_back(middle, after, conn, now);
    }
}

/// A client that leaves a connection leaves it to nobody, with a clean slate for counting. It counts
/// as left when its last transaction ended, or in session mode now. A broken connection makes the
/// pool unhealthy.
pub proof fn leaving_a_connection(
    before: Pool,
    after: Pool,
    server: Server,
    now: Instant,
    r: Result<CheckInResult, Error>,
)
    requires
        left(before, after, server, now, r),
        !is_replaced(before.inner),
        is_out(before.inner, server.id),
        before.inner.online && !before.inner.paused && !before.inner.draining,
        before.inner.waiting@.len() == 0,
    ensures
        r is Ok,
        ({
            let at = if server.pooler_mode == PoolerMode::Session {
                now
            } else {
                server.stats.last_used
            };
            &&& is_fit(server, before.inner, at) <==> after.inner.idle_connections@.len()
                == before.inner.idle_connections@.len() + 1
            &&& is_fit(server, before.inner, at) ==> {
                let s = *after.inner.idle_connections@.last();
                &&& s.id == server.id
                &&& s.stats.client_id is None
                &&& s.stats.last_checkout.queries == 0 && s.stats.last_checkout.transactions == 0
                &&& s.stats.total == server.stats.total
            }
            &&& after.health <==> before.health && server.stats.state != State::Error
            &&& before.checked_out_count > 0 ==> after.checked_out_count
                == before.checked_out_count - 1
        }),
{
    let s = released(server);
    let at = released_at(server, now);
    fit_connections_serve_again(
        before.inner,
        after.inner,
        s,
        at,
        server.stats.last_checkout,
        false,
        r,
    );
    assert(is_out(before.inner, s.id));
    assert(is_fit(s, before.inner, at) == is_fit(server, before.inner, at));
    lemma_one_less_out(
        before.inner,
        after.inner,
        s,
        at,
        server.stats.last_checkout,
        false,
        r,
    );
}

/// A pool that gives its connections to another one is offline and empty, and sends on what is given
/// back later; every idle connection belongs to the other pool from then on and is otherwise
/// unchanged. The settings of the other pool stay, and so does whether it serves clients.
pub proof fn moving_hands_everything_over(
    from: Pool,
    to: Pool,
    from_after: Pool,
    to_after: Pool,
    now: Instant,
    i: int,
)
    requires
        conns_moved(from, to, from_after, to_after, now),
        to.inner.waiting@.len() == 0,
        0 <= i < from.inner.idle_connections@.len(),
    ensures
        !from_after.inner.online,
        from_after.inner.moved == Some(to.id),
        from_after.inner.idle_connections@.len() == 0 && from_after.inner.taken@.len() == 0
            && from_after.inner.waiting@.len() == 0,
        to_after.inner.taken@ == to.inner.taken@ + from.inner.taken@,
        to_after.inner.idle_connections@.len() == to.inner.idle_connections@.len()
            + from.inner.idle_connections@.len(),
        ({
            let c = *from.inner.idle_connections@[i];
            let d = *to_after.inner.idle_connections@[to.inner.idle_connections@.len() + i];
            d == Server { stats: Stats { pool_id: to.id, ..c.stats }, ..c }
        }),
        to_after.inner.online == to.inner.online && to_after.config == to.config && to_after.id
            == to.id,
        to.checked_out_count + from.inner.taken@.len() <= usize::MAX ==> to_after.checked_out_count
            == to.checked_out_count + from.inner.taken@.len(),
        from.checked_out_count >= from.inner.taken@.len() ==> from_after.checked_out_count
            == from.checked_out_count - from.inner.taken@.len(),
{
    moving_loses_nothing(from, to, from_after, to_after, now);
    let all = contents(to_after.inner.idle_connections@);
    let given = crate::pool::pool::reassigned(from.inner.idle_connections@, to.id);
    let n = to.inner.idle_connections@.len() as int;
    assert(all.len() == n + given.len());
    assert(all[n + i] == given[i]);
    let middle = choose|middle: Inner| #[trigger]
        all_put(to.inner, middle, given, now) && to_after == (Pool {
            inner: Inner { taken: to_after.inner.taken, ..middle },
            checked_out_count: to.checked_out_count.wrapping_add(
                (to_after.inner.taken@.len() - to.inner.taken@.len()) as usize,
            ),
            ..to
        }) && to_after.inner.taken@ == middle.taken@ + from.inner.taken@;
    lemma_all_put(to.inner, middle, given, now);
}

/// Connections that are dumped are all of the idle ones, in order, each with a reason to be closed;
/// nothing else in the pool changes.
pub proof fn dumping_closes_everything_idle(
    before: Inner,
    after: Inner,
    closed: Seq<Server>,
    i: int,
)
    requires
        dumped(before, after, closed),
        0 <= i < before.idle_connections@.len(),
    ensures
        closed.len() == before.idle_connections@.len(),
        closed[i] == closed_as(*before.idle_connections@[i], DisconnectReason::Offline),
        after.idle_connections@.len() == 0,
        after.taken == before.taken && after.waiting == before.waiting && after.online
            == before.online && after.paused == before.paused,
{
}

/// Connections that were left inside of a transaction are found, all of them and no others.
pub proof fn open_transactions_are_found(
    before: Inner,
    after: Inner,
    found: Seq<Box<Server>>,
    i: int,
    k: int,
)
    requires
        left_open(before, after, found),
        0 <= i < before.idle_connections@.len(),
    ensures
        before.idle_connections@[i].in_transaction ==> found.contains(before.idle_connections@[i]),
        !before.idle_connections@[i].in_transaction ==> after.idle_connections@.contains(
            before.idle_connections@[i],
        ),
        0 <= k < found.len() ==> found[k].in_transaction,
        0 <= k < after.idle_connections@.len() ==> !after.idle_connections@[k].in_transaction,
{
    broadcast use vstd::seq_lib::group_filter_ensures;

    let idle = before.idle_connections@;
    let open = |c: Box<Server>| c.in_transaction;
    let shut = |c: Box<Server>| !c.in_transaction;
    if idle[i].in_transaction {
        assert(open(idle[i]));
        assert(idle.filter(open).contains(idle[i]));
    } else {
        assert(shut(idle[i]));
        assert(idle.filter(shut).contains(idle[i]));
    }
    if 0 <= k < found.len() {
        assert(open(idle.filter(open)[k]));
    }
    if 0 <= k < after.idle_connections@.len() {
        assert(shut(idle.filter(shut)[k]));
    }
}

/// A connection that is handed out follows the settings of its pool, and is otherwise as it was.
pub proof fn connections_follow_their_pool(server: Server, config: Config)
    ensures
        configured(server, config).pooler_mode == config.pooler_mode,
        configured(server, config).prepared_statements.capacity == config.prepared_statements_limit,
        configured(server, config).prepared_statements.level == config.prepared_statements_level,
        configured(server, config).prepared_statements.names == server.prepared_statements.names,
        configured(server, config).id == server.id && configured(server, config).stats
            == server.stats && configured(server, config).in_transaction == server.in_transaction,
{
}

/// What a server is asked for when a connection is made: a time limit for statements if the pool has
/// one, to stream changes if the pool is for that, and to refuse writes if the pool only reads.
pub proof fn servers_are_asked_for_what_is_set(config: Config)
    ensures
        startup_params(config)[0] == ("application_name"@, "PgDog"@),
        startup_params(config)[1] == ("client_encoding"@, "utf-8"@),
        config.replication_mode ==> startup_params(config).contains(("replication"@, "database"@)),
        config.read_only ==> startup_params(config).contains(
            ("default_transaction_read_only"@, "on"@),
        ),
        config.statement_timeout matches Some(d) ==> startup_params(config)[2] == (
            "statement_timeout"@,
            crate::text::decimal((d.nanos / 1_000_000) as nat),
        ),
        startup_params(config).len() == 2 + (if config.statement_timeout is Some {
            1int
        } else {
            0
        }) + (if config.replication_mode {
            1int
        } else {
            0
        }) + (if config.read_only {
            1int
        } else {
            0
        }),
{
    let all = startup_params(config);
    let n: int = if config.statement_timeout is Some {
        3
    } else {
        2
    };
    if config.replication_mode {
        assert(all[n] == ("replication"@, "database"@));
    }
    if config.read_only {
        assert(all[all.len() - 1] == ("default_transaction_read_only"@, "on"@));
    }
}

/// Two pools are for the same server exactly if nothing in their addresses differs.
pub proof fn same_servers_have_the_same_address(
    a: crate::pool::config::Address,
    b: crate::pool::config::Address,
)
    ensures
        a.host@ != b.host@ || a.port != b.port || a.database_name@ != b.database_name@ || a.user@
            != b.user@ || a.passwords@.len() != b.passwords@.len() || a.configured_role
            != b.configured_role || a.database_number != b.database_number
            ==> !crate::pool::config::same_address(a, b),
        a.host@ == b.host@ && a.port == b.port && a.database_name@ == b.database_name@ && a.user@
            == b.user@ && a.passwords@ == b.passwords@ && a.configured_role == b.configured_role
            && a.database_number == b.database_number ==> crate::pool::config::same_address(a, b),
        crate::pool::config::same_address(a, b) ==> crate::pool::config::same_address(b, a),
{
    assert(crate::text::views(a.passwords@).len() == a.passwords@.len());
    assert(crate::text::views(b.passwords@).len() == b.passwords@.len());
}

/// A paused pool serves nobody, has nothing idle, and keeps its clients waiting; all else stays as it
/// is, so that it serves again once it is resumed.
pub proof fn pausing_keeps_clients_waiting(before: Pool, after: Pool, closed: Seq<Server>, i: int)
    requires
        put_on_hold(before, after, closed),
        0 <= i < before.inner.idle_connections@.len(),
    ensures
        !serves_clients(after),
        serves_clients(before) <==> before.inner.online && !before.inner.paused,
        after.inner.online == before.inner.online,
        after.inner.waiting == before.inner.waiting && after.inner.taken == before.inner.taken,
        after.inner.idle_connections@.len() == 0,
        closed.len() == before.inner.idle_connections@.len(),
        closed[i] == closed_as(*before.inner.idle_connections@[i], DisconnectReason::Offline),
{
}

/// A connection that had to be drained is counted once when it is given back, if it gets as far as
/// being looked at again.
pub proof fn drained_connections_are_counted(
    before: Inner,
    after: Inner,
    server: Server,
    now: Instant,
    stats: Counts,
    moving: bool,
    r: Result<CheckInResult, Error>,
)
    requires
        checked_in(before, after, server, now, stats, moving, r),
        before.re_synced < usize::MAX,
        !is_replaced(before),
        is_out(before, server.id),
    ensures
        ({
            let halfway = server.stream is Some && server.stream->Some_0.io_in_progress;
            let looked_at = takes_back(before, moving) && !outlived(server, before, now) && !halfway
                && server.stats.state != State::Error && server.stats.state != State::ForceClose
                && !server.replication_mode;
            after.re_synced - before.re_synced == if server.re_synced && looked_at {
                1int
            } else {
                0
            }
        }),
{
    reveal(checked_in);
    assert(is_out(before, server.id) == serves(before.taken@, server.id));
    if fate(before, server, now, moving) == Fate::Kept {
        let conn = Box::new(refreshed(server));
        let middle = choose|middle: Inner| #[trigger]
            settled(before, middle, server, now, stats, moving) && put_back(
                middle,
                after,
                conn,
                now,
            );
        lemma_put_back(middle, after, conn, now);
        if !shelved(middle, after, conn) {
            let k = choose|k: int| #[trigger] assigned(middle, after, *conn, now, k);
        }
    }
}

/// A pool that was just made serves nobody, holds nothing, has counted nothing and is taken to be
/// healthy; of its server nothing is known.
pub proof fn new_pools_are_empty(p: Pool, config: crate::pool::config::PoolConfig, id: u64)
    requires
        crate::pool::pool::pool_made(p, config, id),
    ensures
        !p.inner.online && !p.inner.paused && !p.inner.draining && p.inner.moved is None,
        p.inner.idle_connections@.len() == 0 && p.inner.taken@.len() == 0 && p.inner.waiting@.len()
            == 0,
        p.id == id && p.inner.id == id && p.config == config.config && p.inner.config
            == config.config,
        p.health && p.params is None && p.lsn_stats.replica && !p.lsn_stats.valid,
        p.checked_out_count == 0 && p.inner.counts.reads == 0 && p.inner.counts.writes == 0
            && p.inner.errors == 0,
{
}

} // verus!
