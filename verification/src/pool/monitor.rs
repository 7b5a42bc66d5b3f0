//! Upkeep of a load balancer: bans of servers that are unwell, and moving to another one.

use crate::pool::ban::Ban;
#[allow(unused_imports)]
use crate::pool::ban::BanEntry;
#[allow(unused_imports)]
use crate::pool::config::same_address;
use crate::pool::error::Error;
#[allow(unused_imports)]
use crate::pool::inner::{all_closed_for, contents, Inner};
use crate::pool::lb::LoadBalancer;
#[allow(unused_imports)]
use crate::pool::lb::{closed_by_ban, find_primary, last_primary, Target};
#[allow(unused_imports)]
use crate::pool::pool::{can_take_over, conns_moved, Pool};
use crate::pool::pool::ReplicaLag;
#[allow(unused_imports)]
use crate::pool::routing::{banned_once, lifted};
#[allow(unused_imports)]
use crate::server::connection::DisconnectReason;
use crate::server::connection::Server;
use crate::time::Instant;
use vstd::prelude::*;

verus! {

/// The server answers and is not too far behind.
pub open spec fn fit(t: Target, threshold: ReplicaLag) -> bool {
    t.pool.health && !t.pool.replica_lag.reaches(threshold)
}

/// Idle connections of all servers, one server after the other, closed for going offline.
pub open spec fn all_idle_closed(targets: Seq<Target>) -> Seq<Server>
    decreases targets.len(),
{
    if targets.len() == 0 {
        Seq::empty()
    } else {
        all_idle_closed(targets.drop_last()) + all_closed_for(
            targets.last().pool.inner.idle_connections@,
            DisconnectReason::Offline,
        )
    }
}

/// The pool of the server is offline: it has no idle connections, and nobody waits for one.
pub open spec fn taken_offline(before: Target, after: Target) -> bool {
    &&& after == (Target {
        pool: Pool {
            inner: Inner {
                online: false,
                idle_connections: after.pool.inner.idle_connections,
                waiting: after.pool.inner.waiting,
                ..before.pool.inner
            },
            ..before.pool
        },
        ..before
    })
    &&& after.pool.inner.idle_connections@.len() == 0
    &&& after.pool.inner.waiting@.len() == 0
}

/// The server would be missed if it was banned, or bans are off.
pub open spec fn bannable(t: Target, several: bool) -> bool {
    several && t.pool.config.ban_timeout.nanos > 0
}

/// Why an unfit server is banned.
pub open spec fn unfit_reason(t: Target, threshold: ReplicaLag) -> Error {
    if t.pool.replica_lag.reaches(threshold) {
        Error::ReplicaLag
    } else {
        Error::PoolUnhealthy
    }
}

/// `after` is `before` once it was looked at: a fit server gets back to work when its ban has run
/// out, an unfit one is banned.
pub open spec fn looked_at(
    before: Target,
    after: Target,
    threshold: ReplicaLag,
    now: Instant,
    several: bool,
) -> bool {
    if fit(before, threshold) {
        after == (Target {
            ban: if before.ban.expired(now) && !before.ban.manual() {
                Ban { entry: None }
            } else {
                before.ban
            },
            ..before
        })
    } else if bannable(before, several) {
        banned_once(before, after, unfit_reason(before, threshold), now)
    } else {
        after == before
    }
}

/// Every server is banned.
pub open spec fn all_banned(targets: Seq<Target>) -> bool {
    forall|i: int| 0 <= i < targets.len() ==> (#[trigger] targets[i]).ban.active()
}

/// Every server would be banned.
pub open spec fn none_is_fit(targets: Seq<Target>, threshold: ReplicaLag) -> bool {
    &&& targets.len() > 1
    &&& forall|i: int|
        0 <= i < targets.len() ==> !fit(#[trigger] targets[i], threshold) && bannable(
            targets[i],
            true,
        )
}

/// The servers were checked: if all of them would be banned, bans are lifted instead.
pub open spec fn checked(
    before: Seq<Target>,
    after: Seq<Target>,
    threshold: ReplicaLag,
    now: Instant,
) -> bool {
    if none_is_fit(before, threshold) {
        all_lifted(before, after)
    } else {
        all_looked_at(before, after, threshold, now)
    }
}

/// All servers were looked at.
pub open spec fn all_looked_at(
    before: Seq<Target>,
    after: Seq<Target>,
    threshold: ReplicaLag,
    now: Instant,
) -> bool {
    &&& after.len() == before.len()
    &&& forall|i: int|
        0 <= i < before.len() ==> looked_at(
            before[i],
            #[trigger] after[i],
            threshold,
            now,
            before.len() > 1,
        )
}

/// The connections that are closed when the servers are looked at: those of servers that are banned
/// for being unfit.
pub open spec fn closed_by_check(
    targets: Seq<Target>,
    threshold: ReplicaLag,
    several: bool,
) -> Seq<Server>
    decreases targets.len(),
{
    if targets.len() == 0 {
        Seq::empty()
    } else {
        let t = targets.last();
        closed_by_check(targets.drop_last(), threshold, several) + if !fit(t, threshold)
            && bannable(t, several) {
            closed_by_ban(t)
        } else {
            Seq::empty()
        }
    }
}

/// All bans were lifted, but for those that an administrator put there.
pub open spec fn all_lifted(before: Seq<Target>, after: Seq<Target>) -> bool {
    &&& after.len() == before.len()
    &&& forall|i: int|
        0 <= i < before.len() ==> #[trigger] after[i] == (Target {
            ban: lifted(before[i].ban),
            ..before[i]
        })
}

/// A server gave all its connections to the same server of another load balancer. Its role and log
/// position went along.
pub open spec fn target_moved(
    from: Target,
    to: Target,
    from_after: Target,
    to_after: Target,
    now: Instant,
) -> bool {
    &&& from_after == (Target { pool: from_after.pool, ..from })
    &&& to_after == (Target { pool: to_after.pool, role: from.role, ..to })
    &&& to_after.pool.lsn_stats == from.pool.lsn_stats
    &&& conns_moved(
        from.pool,
        to.pool,
        from_after.pool,
        Pool { lsn_stats: to.pool.lsn_stats, ..to_after.pool },
        now,
    )
}

impl LoadBalancer {
    /// Ban servers that do not answer or are too far behind, and let servers that are well again
    /// get back to work once their bans have run out. A lone server is never banned, and if all
    /// servers would be banned none is: bans are lifted then. Connections of banned servers come
    /// back to be closed.
    pub fn ban_check(&mut self, threshold: &ReplicaLag, now: Instant) -> (r: Vec<Box<Server>>)
        ensures
            *final(self) == (LoadBalancer { targets: final(self).targets, ..*old(self) }),
            checked(old(self).targets@, final(self).targets@, *threshold, now),
            contents(r@) == if none_is_fit(old(self).targets@, *threshold) {
                Seq::empty()
            } else {
                closed_by_check(old(self).targets@, *threshold, old(self).targets@.len() > 1)
            },
    {
        let several = self.targets.len() > 1;
        let mut closed: Vec<Box<Server>> = Vec::new();
        let ghost before = self.targets@;
        if several && self.none_fit(threshold) {
            self.unban_all();
            return closed;
        }
        assert(before.take(0) == Seq::<Target>::empty());
        let mut i: usize = 0;
        while i < self.targets.len()
            invariant
                i <= self.targets@.len(),
                self.targets@.len() == before.len(),
                before == old(self).targets@,
                several == (before.len() > 1),
                contents(closed@) == closed_by_check(before.take(i as int), *threshold, several),
                *self == (LoadBalancer { targets: self.targets, ..*old(self) }),
                forall|k: int|
                    0 <= k < i ==> looked_at(
                        before[k],
                        #[trigger] self.targets@[k],
                        *threshold,
                        now,
                        several,
                    ),
                forall|k: int|
                    i <= k < self.targets@.len() ==> #[trigger] self.targets@[k] == before[k],
            decreases self.targets@.len() - i,
        {
            let healthy = self.targets[i].pool.healthy();
            let lagging = self.targets[i].pool.replica_lag().greater_or_eq(threshold);
            let timeout = self.targets[i].pool.config.ban_timeout;
            let ghost held = self.targets@;
            if healthy && !lagging {
                let _ = self.targets[i].ban.unban_if_expired(now, true);
            } else if several && !timeout.is_zero() {
                let reason = if lagging {
                    Error::ReplicaLag
                } else {
                    Error::PoolUnhealthy
                };
                let mut more = self.targets[i].ban(reason, timeout, now);
                assert(contents(closed@ + more@) == contents(closed@) + contents(more@));
                closed.append(&mut more);
            }
            assert(before.take(i + 1).drop_last() == before.take(i as int));
            assert(looked_at(before[i as int], self.targets@[i as int], *threshold, now, several));
            assert(forall|k: int|
                0 <= k < held.len() && k != i ==> #[trigger] self.targets@[k] == held[k]);
            i = i + 1;
        }
        assert(before.take(before.len() as int) == before);
        closed
    }

    /// No server answers and is up to date, and all of them can be banned.
    fn none_fit(&self, threshold: &ReplicaLag) -> (r: bool)
        ensures
            r <==> forall|i: int|
                0 <= i < self.targets@.len() ==> !fit(#[trigger] self.targets@[i], *threshold)
                    && bannable(self.targets@[i], true),
    {
        for i in 0..self.targets.len()
            invariant
                forall|k: int|
                    0 <= k < i ==> !fit(#[trigger] self.targets@[k], *threshold) && bannable(
                        self.targets@[k],
                        true,
                    ),
        {
            let pool = &self.targets[i].pool;
            let lagging = pool.replica_lag().greater_or_eq(threshold);
            if pool.config.ban_timeout.is_zero() || (pool.healthy() && !lagging) {
                assert(fit(self.targets@[i as int], *threshold) || !bannable(
                    self.targets@[i as int],
                    true,
                ));
                return false;
            }
        }
        true
    }

    /// Lift all bans, but for those that an administrator put there.
    fn unban_all(&mut self)
        ensures
            *final(self) == (LoadBalancer { targets: final(self).targets, ..*old(self) }),
            all_lifted(old(self).targets@, final(self).targets@),
    {
        let ghost before = self.targets@;
        let mut i: usize = 0;
        while i < self.targets.len()
            invariant
                i <= self.targets@.len(),
                self.targets@.len() == before.len(),
                before == old(self).targets@,
                *self == (LoadBalancer { targets: self.targets, ..*old(self) }),
                forall|k: int|
                    0 <= k < i ==> #[trigger] self.targets@[k] == (Target {
                        ban: lifted(before[k].ban),
                        ..before[k]
                    }),
                forall|k: int|
                    i <= k < self.targets@.len() ==> #[trigger] self.targets@[k] == before[k],
            decreases self.targets@.len() - i,
        {
            self.targets[i].ban.unban(true);
            i = i + 1;
        }
    }

    /// Bring all pools online. The numbers of those that were not come back: their maintenance has
    /// to be started.
    pub fn launch(&mut self) -> (r: Vec<usize>)
        ensures
            *final(self) == (LoadBalancer { targets: final(self).targets, ..*old(self) }),
            final(self).targets@.len() == old(self).targets@.len(),
            forall|i: int|
                0 <= i < old(self).targets@.len() ==> #[trigger] final(self).targets@[i] == (
                Target {
                    pool: Pool {
                        inner: Inner { online: true, ..old(self).targets@[i].pool.inner },
                        ..old(self).targets@[i].pool
                    },
                    ..old(self).targets@[i]
                }),
            r@ == crate::pool::lb::picks(
                old(self).targets@,
                |t: Target| !t.pool.inner.online,
            ),
    {
        let mut launched: Vec<usize> = Vec::new();
        let ghost before = self.targets@;
        let ghost p = |t: Target| !t.pool.inner.online;
        assert(before.take(0) == Seq::<Target>::empty());
        let mut i: usize = 0;
        while i < self.targets.len()
            invariant
                i <= self.targets@.len(),
                self.targets@.len() == before.len(),
                before == old(self).targets@,
                p == (|t: Target| !t.pool.inner.online),
                *self == (LoadBalancer { targets: self.targets, ..*old(self) }),
                launched@ == crate::pool::lb::picks(before.take(i as int), p),
                forall|k: int|
                    0 <= k < i ==> #[trigger] self.targets@[k] == (Target {
                        pool: Pool {
                            inner: Inner { online: true, ..before[k].pool.inner },
                            ..before[k].pool
                        },
                        ..before[k]
                    }),
                forall|k: int|
                    i <= k < self.targets@.len() ==> #[trigger] self.targets@[k] == before[k],
            decreases self.targets@.len() - i,
        {
            proof {
                assert(before.take(i + 1).drop_last() == before.take(i as int));
                assert(before.take(i + 1).last() == before[i as int]);
            }
            if self.targets[i].pool.launch() {
                launched.push(i);
            }
            i = i + 1;
        }
        assert(before.take(before.len() as int) == before);
        launched
    }

    /// Take all pools offline. Their idle connections come back to be closed.
    pub fn shutdown(&mut self) -> (r: Vec<Box<Server>>)
        ensures
            *final(self) == (LoadBalancer { targets: final(self).targets, ..*old(self) }),
            final(self).targets@.len() == old(self).targets@.len(),
            forall|i: int|
                0 <= i < old(self).targets@.len() ==> taken_offline(
                    old(self).targets@[i],
                    #[trigger] final(self).targets@[i],
                ),
            contents(r@) == all_idle_closed(old(self).targets@),
    {
        let mut closed: Vec<Box<Server>> = Vec::new();
        let ghost before = self.targets@;
        assert(before.take(0) == Seq::<Target>::empty());
        let mut i: usize = 0;
        while i < self.targets.len()
            invariant
                i <= self.targets@.len(),
                self.targets@.len() == before.len(),
                before == old(self).targets@,
                contents(closed@) == all_idle_closed(before.take(i as int)),
                *self == (LoadBalancer { targets: self.targets, ..*old(self) }),
                forall|k: int|
                    0 <= k < i ==> taken_offline(before[k], #[trigger] self.targets@[k]),
                forall|k: int|
                    i <= k < self.targets@.len() ==> #[trigger] self.targets@[k] == before[k],
            decreases self.targets@.len() - i,
        {
            let mut more = self.targets[i].pool.shutdown();
            assert(before.take(i + 1).drop_last() == before.take(i as int));
            assert(contents(closed@ + more@) == contents(closed@) + contents(more@));
            closed.append(&mut more);
            i = i + 1;
        }
        assert(before.take(before.len() as int) == before);
        closed
    }

    /// Give all connections to another load balancer over the same servers. Roles and log
    /// positions go along, so that the other one does not have to find them out again: it knows the
    /// primary at once.
    pub fn move_conns_to(&mut self, destination: &mut LoadBalancer, now: Instant) -> (r: Result<
        (),
        Error,
    >)
        requires
            old(self).targets@.len() == old(destination).targets@.len(),
            forall|i: int|
                0 <= i < old(self).targets@.len() ==> {
                    let (a, b) = (#[trigger] old(self).targets@[i], old(destination).targets@[i]);
                    a.pool.wf() && b.pool.wf() && a.pool.id != b.pool.id && can_take_over(
                        b.pool.inner,
                        a.pool.inner.size(),
                        now,
                    )
                },
        ensures
            r is Ok,
            final(self).targets@.len() == old(self).targets@.len(),
            final(destination).targets@.len() == old(destination).targets@.len(),
            *final(self) == (LoadBalancer { targets: final(self).targets, ..*old(self) }),
            *final(destination) == (LoadBalancer {
                targets: final(destination).targets,
                primary_idx: last_primary(final(destination).targets@),
                ..*old(destination)
            }),
            forall|i: int|
                0 <= i < old(self).targets@.len() ==> target_moved(
                    old(self).targets@[i],
                    old(destination).targets@[i],
                    final(self).targets@[i],
                    #[trigger] final(destination).targets@[i],
                    now,
                ),
    {
        let ghost from = self.targets@;
        let ghost to = destination.targets@;
        let mut i: usize = 0;
        while i < self.targets.len()
            invariant
                i <= self.targets@.len(),
                from == old(self).targets@,
                to == old(destination).targets@,
                from.len() == to.len(),
                self.targets@.len() == from.len(),
                destination.targets@.len() == to.len(),
                *self == (LoadBalancer { targets: self.targets, ..*old(self) }),
                *destination == (LoadBalancer {
                    targets: destination.targets,
                    ..*old(destination)
                }),
                forall|k: int|
                    0 <= k < from.len() ==> {
                        let (a, b) = (#[trigger] from[k], to[k]);
                        a.pool.wf() && b.pool.wf() && a.pool.id != b.pool.id && can_take_over(
                            b.pool.inner,
                            a.pool.inner.size(),
                            now,
                        )
                    },
                forall|k: int|
                    0 <= k < i ==> target_moved(
                        from[k],
                        to[k],
                        self.targets@[k],
                        #[trigger] destination.targets@[k],
                        now,
                    ),
                forall|k: int| i <= k < from.len() ==> #[trigger] self.targets@[k] == from[k],
                forall|k: int| i <= k < to.len() ==> #[trigger] destination.targets@[k] == to[k],
            decreases self.targets@.len() - i,
        {
            let ghost a = from[i as int];
            assert(self.targets@[i as int] == a && destination.targets@[i as int] == to[i as int]);
            match self.targets[i].pool.move_conns_to(&mut destination.targets[i].pool, now) {
                Ok(_) => {},
                Err(err) => {
                    return Err(err);
                },
            }
            let ghost moved = destination.targets@[i as int].pool;
            let role = self.targets[i].role();
            let _ = destination.targets[i].set_role(role);
            destination.targets[i].pool.lsn_stats = self.targets[i].pool.lsn_stats();
            proof {
                let b = destination.targets@[i as int];
                assert(Pool { lsn_stats: to[i as int].pool.lsn_stats, ..b.pool } == moved);
                assert(target_moved(a, to[i as int], self.targets@[i as int], b, now));
            }
            i = i + 1;
        }
        destination.look_for_primary();
        Ok(())
    }
}

proof fn lemma_same_roles(a: Seq<Target>, b: Seq<Target>)
    requires
        a.len() == b.len(),
        forall|i: int| 0 <= i < a.len() ==> (#[trigger] b[i]).role == a[i].role,
    ensures
        last_primary(b) == last_primary(a),
    decreases a.len(),
{
    if a.len() > 0 {
        let x = a.drop_last();
        let y = b.drop_last();
        assert(b[b.len() - 1].role == a[a.len() - 1].role);
        assert forall|i: int| 0 <= i < x.len() implies (#[trigger] y[i]).role == x[i].role by {
            assert(y[i] == b[i] && x[i] == a[i]);
        }
        lemma_same_roles(x, y);
    }
}

/// A load balancer that took over from another one knows the primary at once: it is the server that
/// was the primary there, even if neither was told of one when it was made.
pub proof fn the_primary_moves_along(
    from: LoadBalancer,
    to: LoadBalancer,
    from_after: Seq<Target>,
    to_after: LoadBalancer,
    now: Instant,
)
    requires
        to_after.targets@.len() == from.targets@.len(),
        to_after.primary_idx == last_primary(to_after.targets@),
        forall|i: int|
            0 <= i < from.targets@.len() ==> target_moved(
                from.targets@[i],
                to.targets@[i],
                from_after[i],
                #[trigger] to_after.targets@[i],
                now,
            ),
    ensures
        find_primary(to_after.targets@, to_after.primary_idx) == last_primary(from.targets@),
{
    assert forall|i: int| 0 <= i < from.targets@.len() implies (#[trigger]
    to_after.targets@[i]).role == from.targets@[i].role by {}
    lemma_same_roles(from.targets@, to_after.targets@);
}

/// A check that finds nobody's ban in force on a server that it does not ban itself leaves some
/// server usable, unless an administrator banned servers.
pub proof fn some_server_stays_usable(
    before: Seq<Target>,
    after: Seq<Target>,
    threshold: ReplicaLag,
    now: Instant,
)
    requires
        before.len() > 0,
        checked(before, after, threshold, now),
        forall|i: int| 0 <= i < before.len() ==> !(#[trigger] before[i]).ban.manual(),
        forall|i: int|
            0 <= i < before.len() && (#[trigger] before[i]).ban.active() ==> if fit(
                before[i],
                threshold,
            ) {
                before[i].ban.expired(now)
            } else {
                bannable(before[i], before.len() > 1)
            },
    ensures
        !all_banned(after),
{
    if none_is_fit(before, threshold) {
        assert(after[0].ban == lifted(before[0].ban));
        assert(!after[0].ban.active());
    } else if before.len() > 1 {
        let i = choose|i: int|
            0 <= i < before.len() && (fit(#[trigger] before[i], threshold) || !bannable(
                before[i],
                true,
            ));
        assert(looked_at(before[i], after[i], threshold, now, true));
        assert(!after[i].ban.active());
    } else {
        assert(looked_at(before[0], after[0], threshold, now, false));
        assert(!after[0].ban.active());
    }
}

} // verus!
