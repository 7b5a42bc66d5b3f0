//! Load balancer over the servers of a shard.

use crate::config::database::{LoadBalancingStrategy, ReadWriteSplit, Role};
use crate::pool::ban::Ban;
use crate::pool::config::PoolConfig;
#[allow(unused_imports)]
use crate::pool::config::same_address;
use crate::pool::error::Error;
#[allow(unused_imports)]
use crate::pool::inner::{all_closed_for, contents, Inner};
use crate::pool::pool::{Pool, ReplicaLag};
#[allow(unused_imports)]
use crate::pool::pool::{can_take_over, pool_made};
#[allow(unused_imports)]
use crate::pool::weighted::{machine_chosen, machine_round, machine_sum};
#[allow(unused_imports)]
use crate::server::connection::DisconnectReason;
use crate::server::connection::Server;
use crate::time::{Duration, Instant};
#[allow(unused_imports)]
use crate::time::MAX_NANOS;
use rand::seq::SliceRandom;
use vstd::multiset::Multiset;
use vstd::prelude::*;

verus! {

/// A server that queries can go to.
#[derive(Debug)]
pub struct Target {
    /// Its pool.
    pub pool: Pool,
    /// Whether it may be used.
    pub ban: Ban,
    /// Its role.
    pub role: Role,
    /// Running weight of weighted round robin.
    pub current_weight: i64,
}

impl Target {
    /// A server of this role that may be used.
    pub fn new(pool: Pool, role: Role) -> (r: Self)
        ensures
            r.pool == pool,
            r.role == role,
            !r.ban.active(),
            r.current_weight == 0,
    {
        Target { pool, ban: Ban::new(), role, current_weight: 0 }
    }

    /// Its role.
    pub fn role(&self) -> (r: Role)
        ensures
            r == self.role,
    {
        self.role
    }

    /// Change its role. `true` if it was another one.
    pub fn set_role(&mut self, role: Role) -> (r: bool)
        ensures
            *final(self) == (Target { role, ..*old(self) }),
            r == (old(self).role != role),
    {
        let changed = self.role != role;
        self.role = role;
        changed
    }

    /// Ban the server, if it is not banned yet. Its idle connections come back to be closed.
    pub fn ban(&mut self, error: Error, timeout: Duration, now: Instant) -> (r: Vec<Box<Server>>)
        ensures
            final(self).ban.active(),
            old(self).ban.active() ==> *final(self) == *old(self),
            !old(self).ban.active() ==> {
                &&& *final(self) == (Target {
                    ban: final(self).ban,
                    pool: Pool {
                        inner: Inner {
                            idle_connections: final(self).pool.inner.idle_connections,
                            ..old(self).pool.inner
                        },
                        ..old(self).pool
                    },
                    ..*old(self)
                })
                &&& final(self).pool.inner.idle_connections@.len() == 0
                &&& final(self).ban.entry matches Some(e) && e.error == error && e.created_at
                    == now && e.ban_timeout == timeout
            },
            contents(r@) == closed_by_ban(*old(self)),
    {
        if self.ban.ban(error, timeout, now) {
            self.pool.inner.dump_idle()
        } else {
            let closed: Vec<Box<Server>> = Vec::new();
            assert(contents(closed@) == closed_by_ban(*old(self)));
            closed
        }
    }
}

/// The connections that are closed when a server is banned: the idle ones, unless it is banned
/// already.
pub open spec fn closed_by_ban(t: Target) -> Seq<Server> {
    if t.ban.active() {
        Seq::empty()
    } else {
        all_closed_for(t.pool.inner.idle_connections@, DisconnectReason::Offline)
    }
}

/// Load balancer over the servers of a shard.
#[derive(Debug)]
pub struct LoadBalancer {
    /// The servers.
    pub targets: Vec<Target>,
    /// How long a client waits for a connection.
    pub checkout_timeout: Duration,
    /// Counter of round robin.
    pub round_robin: usize,
    /// Strategy.
    pub lb_strategy: LoadBalancingStrategy,
    /// Separation of reads and writes.
    pub rw_split: ReadWriteSplit,
    /// Where the primary was last seen among the servers, if there was one.
    pub primary_idx: Option<usize>,
}

/// `rand::seq::SliceRandom::shuffle` with the thread's generator: the same items in some order.
#[verifier::external_body]
pub(crate) fn shuffle(items: &mut Vec<usize>)
    ensures
        final(items)@.to_multiset() == old(items)@.to_multiset(),
{
    items.shuffle(&mut rand::rng());
}

/// The server takes part in regular traffic.
pub open spec fn serving(t: Target) -> bool {
    !t.pool.config.resharding_only
}

/// Numbers of the servers of which `p` holds, in order.
pub open spec fn picks(targets: Seq<Target>, p: spec_fn(Target) -> bool) -> Seq<usize>
    decreases targets.len(),
{
    if targets.len() == 0 {
        Seq::empty()
    } else {
        let before = picks(targets.drop_last(), p);
        if p(targets.last()) {
            before.push((targets.len() - 1) as usize)
        } else {
            before
        }
    }
}

/// All replicas that take part in regular traffic are banned.
pub open spec fn all_replicas_banned(targets: Seq<Target>) -> bool {
    forall|i: int|
        0 <= i < targets.len() && serving(#[trigger] targets[i]) && targets[i].role == Role::Replica
            ==> targets[i].ban.active()
}

/// No replica takes part in regular traffic.
pub open spec fn no_replicas(targets: Seq<Target>) -> bool {
    forall|i: int|
        0 <= i < targets.len() && serving(#[trigger] targets[i]) ==> targets[i].role
            != Role::Replica
}

/// Reads may go to the primary.
pub open spec fn reads_primary(split: ReadWriteSplit, targets: Seq<Target>) -> bool {
    match split {
        ReadWriteSplit::IncludePrimary => true,
        ReadWriteSplit::IncludePrimaryIfReplicaBanned
        | ReadWriteSplit::PreferPrimary => all_replicas_banned(targets),
        ReadWriteSplit::ExcludePrimary => no_replicas(targets),
    }
}

/// Numbers of the servers that a read can go to: those that are not known to be the primary first.
pub open spec fn read_targets(split: ReadWriteSplit, targets: Seq<Target>) -> Seq<usize> {
    picks(targets, |t: Target| serving(t) && t.role != Role::Primary) + if reads_primary(
        split,
        targets,
    ) {
        picks(targets, |t: Target| serving(t) && t.role == Role::Primary)
    } else {
        Seq::empty()
    }
}

/// The result is the list, unless it is empty.
pub open spec fn unless_empty(r: Result<Vec<usize>, Error>, list: Seq<usize>) -> bool {
    match r {
        Ok(v) => v@ == list && list.len() > 0,
        Err(e) => list.len() == 0 && e == Error::AllReplicasDown,
    }
}

pub(crate) proof fn lemma_picks(targets: Seq<Target>, p: spec_fn(Target) -> bool)
    requires
        targets.len() <= usize::MAX,
    ensures
        forall|k: int|
            0 <= k < picks(targets, p).len() ==> (#[trigger] picks(targets, p)[k]) < targets.len()
                && p(targets[picks(targets, p)[k] as int]),
        forall|i: int|
            0 <= i < targets.len() && p(#[trigger] targets[i]) ==> picks(targets, p).contains(
                i as usize,
            ),
        forall|a: int, b: int|
            0 <= a < b < picks(targets, p).len() ==> picks(targets, p)[a] < picks(targets, p)[b],
    decreases targets.len(),
{
    if targets.len() > 0 {
        let short = targets.drop_last();
        lemma_picks(short, p);
        let before = picks(short, p);
        let all = picks(targets, p);
        assert forall|k: int| 0 <= k < all.len() implies (#[trigger] all[k]) < targets.len() && p(
            targets[all[k] as int],
        ) by {
            if k < before.len() {
                assert(all[k] == before[k]);
                assert(short[before[k] as int] == targets[before[k] as int]);
            }
        }
        assert forall|i: int| 0 <= i < targets.len() && p(#[trigger] targets[i]) implies all.contains(
            i as usize,
        ) by {
            if i < short.len() {
                assert(short[i] == targets[i]);
                let k = choose|k: int| 0 <= k < before.len() && before[k] == i as usize;
                assert(all[k] == before[k]);
            } else {
                assert(all[all.len() - 1] == i as usize);
            }
        }
        assert forall|a: int, b: int| 0 <= a < b < all.len() implies all[a] < all[b] by {
            if b < before.len() {
                assert(all[a] == before[a] && all[b] == before[b]);
            } else {
                assert(all[a] == before[a]);
                assert(before[a] < short.len());
            }
        }
    }
}

/// The list turned so that the item of number `first` comes first.
pub open spec fn rotated(s: Seq<usize>, first: int) -> Seq<usize> {
    s.skip(first) + s.take(first)
}

pub(crate) fn rotate_left(items: &mut Vec<usize>, first: usize)
    requires
        first <= old(items)@.len(),
    ensures
        final(items)@ == rotated(old(items)@, first as int),
{
    let mut tail = items.split_off(first);
    tail.append(items);
    *items = tail;
}

/// The list with the server put behind all servers that have no more connections handed out.
pub open spec fn inserted(s: Seq<usize>, x: usize, load: Seq<usize>) -> Seq<usize>
    decreases s.len(),
{
    if s.len() == 0 {
        seq![x]
    } else if load[s.last() as int] <= load[x as int] {
        s.push(x)
    } else {
        inserted(s.drop_last(), x, load).push(s.last())
    }
}

/// The servers ordered by how many connections they have handed out; among equals the order stays.
pub open spec fn by_load(s: Seq<usize>, load: Seq<usize>) -> Seq<usize>
    decreases s.len(),
{
    if s.len() == 0 {
        s
    } else {
        inserted(by_load(s.drop_last(), load), s.last(), load)
    }
}

pub(crate) proof fn lemma_inserted(s: Seq<usize>, x: usize, load: Seq<usize>, at: int)
    requires
        0 <= at <= s.len(),
        at > 0 ==> load[s[at - 1] as int] <= load[x as int],
        forall|j: int| at <= j < s.len() ==> load[#[trigger] s[j] as int] > load[x as int],
    ensures
        inserted(s, x, load) == s.insert(at, x),
    decreases s.len(),
{
    if s.len() == 0 {
        assert(seq![x] == s.insert(0, x));
    } else if at == s.len() {
        assert(s.push(x) == s.insert(at, x));
    } else {
        let short = s.drop_last();
        assert(load[s[s.len() - 1] as int] > load[x as int]);
        assert forall|j: int| at <= j < short.len() implies load[#[trigger] short[j] as int]
            > load[x as int] by {
            assert(short[j] == s[j]);
        }
        lemma_inserted(short, x, load, at);
        assert(short.insert(at, x).push(s.last()) == s.insert(at, x));
    }
}

proof fn lemma_inserted_multiset(s: Seq<usize>, x: usize, load: Seq<usize>)
    ensures
        inserted(s, x, load).to_multiset() == s.to_multiset().insert(x),
    decreases s.len(),
{
    broadcast use vstd::seq_lib::group_to_multiset_ensures;

    if s.len() == 0 {
        assert(seq![x] == Seq::<usize>::empty().push(x));
    } else if load[s.last() as int] <= load[x as int] {
    } else {
        lemma_inserted_multiset(s.drop_last(), x, load);
        assert(s.drop_last().push(s.last()) == s);
        assert(s.drop_last().to_multiset().insert(x).insert(s.last())
            == s.drop_last().to_multiset().insert(s.last()).insert(x));
    }
}

proof fn lemma_inserted_sorted(s: Seq<usize>, x: usize, load: Seq<usize>)
    requires
        forall|a: int, b: int|
            0 <= a < b < s.len() ==> load[#[trigger] s[a] as int] <= load[#[trigger] s[b] as int],
    ensures
        forall|a: int, b: int|
            0 <= a < b < inserted(s, x, load).len() ==> load[#[trigger] inserted(s, x, load)[a] as int]
                <= load[#[trigger] inserted(s, x, load)[b] as int],
        forall|a: int|
            0 <= a < inserted(s, x, load).len() ==> (#[trigger] inserted(s, x, load)[a]) == x
                || s.contains(inserted(s, x, load)[a]),
    decreases s.len(),
{
    if s.len() == 0 {
    } else if load[s.last() as int] <= load[x as int] {
        let all = s.push(x);
        assert forall|a: int, b: int| 0 <= a < b < all.len() implies load[#[trigger] all[a] as int]
            <= load[#[trigger] all[b] as int] by {
            if b == s.len() && a < s.len() - 1 {
                assert(load[s[a] as int] <= load[s[s.len() - 1] as int]);
            }
        }
        assert forall|a: int| 0 <= a < all.len() implies (#[trigger] all[a]) == x || s.contains(
            all[a],
        ) by {
            if a < s.len() {
                assert(s[a] == all[a]);
            }
        }
    } else {
        let short = s.drop_last();
        assert forall|a: int, b: int| 0 <= a < b < short.len() implies load[
            #[trigger] short[a] as int] <= load[#[trigger] short[b] as int] by {
            assert(short[a] == s[a] && short[b] == s[b]);
        }
        lemma_inserted_sorted(short, x, load);
        let some = inserted(short, x, load);
        let all = some.push(s.last());
        assert forall|a: int| 0 <= a < some.len() implies load[#[trigger] some[a] as int]
            <= load[s.last() as int] && (some[a] == x || s.contains(some[a])) by {
            if some[a] != x {
                assert(short.contains(some[a]));
                let k = choose|k: int| 0 <= k < short.len() && short[k] == some[a];
                assert(s[k] == some[a]);
                assert(load[s[k] as int] <= load[s[s.len() - 1] as int]);
            }
        }
        assert forall|a: int, b: int| 0 <= a < b < all.len() implies load[#[trigger] all[a] as int]
            <= load[#[trigger] all[b] as int] by {
            if b < some.len() {
                assert(all[a] == some[a] && all[b] == some[b]);
            } else {
                assert(all[a] == some[a]);
            }
        }
        assert forall|a: int| 0 <= a < all.len() implies (#[trigger] all[a]) == x || s.contains(
            all[a],
        ) by {
            if a < some.len() {
                assert(all[a] == some[a]);
            } else {
                assert(s[s.len() - 1] == all[a]);
            }
        }
    }
}

/// Ordering by load keeps the servers and puts those with fewer connections handed out first.
pub proof fn by_load_sorts(s: Seq<usize>, load: Seq<usize>)
    ensures
        by_load(s, load).to_multiset() == s.to_multiset(),
        forall|a: int, b: int|
            0 <= a < b < by_load(s, load).len() ==> load[#[trigger] by_load(s, load)[a] as int]
                <= load[#[trigger] by_load(s, load)[b] as int],
    decreases s.len(),
{
    broadcast use vstd::seq_lib::group_to_multiset_ensures;

    if s.len() > 0 {
        by_load_sorts(s.drop_last(), load);
        lemma_inserted_multiset(by_load(s.drop_last(), load), s.last(), load);
        lemma_inserted_sorted(by_load(s.drop_last(), load), s.last(), load);
        assert(s.drop_last().push(s.last()) == s);
    }
}

/// How many connections each server has handed out, about.
pub open spec fn loads(targets: Seq<Target>) -> Seq<usize> {
    targets.map_values(|t: Target| t.pool.checked_out_count)
}

/// Weights of the candidates.
pub open spec fn weights_of(targets: Seq<Target>, candidates: Seq<usize>) -> Seq<int> {
    candidates.map_values(|i: usize| targets[i as int].pool.config.lb_weight as int)
}

/// Running weights of the candidates.
pub open spec fn running_of(targets: Seq<Target>, candidates: Seq<usize>) -> Seq<int> {
    candidates.map_values(|i: usize| targets[i as int].current_weight as int)
}

/// The list with two items swapped.
pub open spec fn exchanged(s: Seq<usize>, a: int, b: int) -> Seq<usize> {
    s.update(a, s[b]).update(b, s[a])
}

/// The candidates are different servers.
pub open spec fn valid_candidates(targets: Seq<Target>, candidates: Seq<usize>) -> bool {
    &&& forall|k: int| 0 <= k < candidates.len() ==> (#[trigger] candidates[k]) < targets.len()
    &&& forall|a: int, b: int|
        0 <= a < b < candidates.len() ==> candidates[a] != candidates[b]
}

/// The servers differ only in their running weights.
pub open spec fn same_but_weights(a: Seq<Target>, b: Seq<Target>) -> bool {
    &&& a.len() == b.len()
    &&& forall|i: int|
        0 <= i < a.len() ==> #[trigger] b[i] == (Target {
            current_weight: b[i].current_weight,
            ..a[i]
        })
}

/// `after` and `ordered` are what a round of weighted round robin makes of the servers and the
/// candidates.
pub open spec fn weighted_round(
    before: Seq<Target>,
    after: Seq<Target>,
    candidates: Seq<usize>,
    ordered: Seq<usize>,
) -> bool {
    let weights = weights_of(before, candidates);
    let running = running_of(before, candidates);
    if machine_sum(weights) > 0 {
        &&& same_but_weights(before, after)
        &&& running_of(after, candidates) == machine_round(running, weights)
        &&& forall|i: int|
            0 <= i < before.len() && !candidates.contains(i as usize) ==> #[trigger] after[i]
                == before[i]
        &&& ordered == exchanged(candidates, 0, machine_chosen(running, weights))
    } else {
        after == before && ordered == candidates
    }
}

/// The last server that is a primary, if there is one.
pub open spec fn last_primary(targets: Seq<Target>) -> Option<usize>
    decreases targets.len(),
{
    if targets.len() == 0 {
        None
    } else if targets.last().role == Role::Primary {
        Some((targets.len() - 1) as usize)
    } else {
        last_primary(targets.drop_last())
    }
}

/// Where the primary is: where it was last seen if that server still is one, else the last server
/// that is.
pub open spec fn find_primary(targets: Seq<Target>, seen: Option<usize>) -> Option<usize> {
    match seen {
        None => None,
        Some(i) => if i < targets.len() && targets[i as int].role == Role::Primary {
            Some(i)
        } else {
            last_primary(targets)
        },
    }
}

/// How long ago the server told where it is in its log.
pub open spec fn lsn_age(t: Target, now: Instant) -> nat {
    now.since(t.pool.lsn_stats.fetched)
}

/// The server leads others and told where it is in its log.
pub open spec fn leads(t: Target) -> bool {
    !t.pool.lsn_stats.replica && t.pool.lsn_stats.valid
}

/// The server that leads and has the latest data; of several, the first one.
pub open spec fn leader(targets: Seq<Target>, now: Instant) -> Option<int>
    decreases targets.len(),
{
    if targets.len() == 0 {
        None
    } else {
        let last = targets.last();
        match leader(targets.drop_last(), now) {
            None => if leads(last) {
                Some(targets.len() - 1)
            } else {
                None
            },
            Some(i) => if leads(last) && lsn_age(last, now) < lsn_age(targets[i], now) {
                Some(targets.len() - 1)
            } else {
                Some(i)
            },
        }
    }
}

/// The server that leads and has the latest data is the primary, and if it was not, everyone else
/// became a replica.
pub open spec fn redetected(
    before: LoadBalancer,
    after: LoadBalancer,
    now: Instant,
    promoted: bool,
) -> bool {
    let found = leader(before.targets@, now);
    &&& promoted == (found matches Some(p) && before.targets@[p].role != Role::Primary)
    &&& after.targets@.len() == before.targets@.len()
    &&& promoted ==> forall|i: int|
        0 <= i < before.targets@.len() ==> #[trigger] after.targets@[i] == (Target {
            role: if found == Some(i) {
                Role::Primary
            } else {
                Role::Replica
            },
            ..before.targets@[i]
        })
    &&& !promoted ==> after.targets@ == before.targets@
    &&& after == (LoadBalancer {
        targets: after.targets,
        primary_idx: last_primary(after.targets@),
        ..before
    })
}

/// Timeouts of all pools together.
pub open spec fn total_timeout(addrs: Seq<PoolConfig>) -> int
    decreases addrs.len(),
{
    if addrs.len() == 0 {
        0
    } else {
        total_timeout(addrs.drop_last()) + addrs.last().config.checkout_timeout.nanos
    }
}

/// All pools are online.
pub open spec fn all_online(targets: Seq<Target>) -> bool {
    forall|i: int| 0 <= i < targets.len() ==> (#[trigger] targets[i]).pool.inner.online
}

/// The role of every server is known.
pub open spec fn all_detected(targets: Seq<Target>) -> bool {
    forall|i: int| 0 <= i < targets.len() ==> (#[trigger] targets[i]).role != Role::Auto
}

/// The server whose announced settings stand for all: the first one that may be used.
pub open spec fn speaks_for_all(targets: Seq<Target>, r: Result<usize, Error>) -> bool {
    match r {
        Ok(i) => i < targets.len() && !targets[i as int].ban.active() && forall|k: int|
            0 <= k < i ==> (#[trigger] targets[k]).ban.active(),
        Err(e) => e == Error::AllReplicasDown && forall|k: int|
            0 <= k < targets.len() ==> (#[trigger] targets[k]).ban.active(),
    }
}

/// The server was just taken in, with a new pool.
pub open spec fn target_made(t: Target, config: PoolConfig, id: int) -> bool {
    &&& t == (Target {
        pool: t.pool,
        ban: Ban { entry: None },
        role: config.address.configured_role,
        current_weight: 0,
    })
    &&& 0 <= id <= u64::MAX
    &&& pool_made(t.pool, config, id as u64)
}

impl LoadBalancer {
    /// A load balancer over new pools, with identifiers from `first_id` on, and the primary, which
    /// comes last. A client may wait as long as it may wait for all of them together.
    pub fn new(
        primary: Option<Pool>,
        addrs: &Vec<PoolConfig>,
        lb_strategy: LoadBalancingStrategy,
        rw_split: ReadWriteSplit,
        first_id: u64,
    ) -> (r: LoadBalancer)
        requires
            first_id + addrs@.len() <= u64::MAX,
            total_timeout(addrs@) + (match primary {
                Some(p) => p.config.checkout_timeout.nanos as int,
                None => 0,
            }) <= MAX_NANOS,
            addrs@.len() < usize::MAX,
        ensures
            r.lb_strategy == lb_strategy,
            r.rw_split == rw_split,
            r.round_robin == 0,
            r.checkout_timeout.nanos == total_timeout(addrs@) + (match primary {
                Some(p) => p.config.checkout_timeout.nanos as int,
                None => 0,
            }),
            r.targets@.len() == addrs@.len() + if primary is Some {
                1nat
            } else {
                0
            },
            forall|i: int|
                0 <= i < addrs@.len() ==> target_made(
                    #[trigger] r.targets@[i],
                    addrs@[i],
                    first_id + i,
                ),
            match primary {
                Some(p) => {
                    &&& r.primary_idx == Some(addrs@.len() as usize)
                    &&& r.targets@.last() == (Target {
                        pool: p,
                        ban: Ban { entry: None },
                        role: Role::Primary,
                        current_weight: 0,
                    })
                },
                None => r.primary_idx is None,
            },
    {
        let mut nanos: u128 = match &primary {
            Some(p) => p.config.checkout_timeout.nanos,
            None => 0,
        };
        let ghost first = nanos as int;
        let mut targets: Vec<Target> = Vec::new();
        proof {
            lemma_total_timeout(addrs@, 0);
            assert(addrs@.take(0) == Seq::<PoolConfig>::empty());
        }
        for i in 0..addrs.len()
            invariant
                first_id + addrs@.len() <= u64::MAX,
                first + total_timeout(addrs@) <= MAX_NANOS,
                nanos == first + total_timeout(addrs@.take(i as int)),
                targets@.len() == i,
                forall|k: int|
                    0 <= k < i ==> target_made(#[trigger] targets@[k], addrs@[k], first_id + k),
        {
            proof {
                assert(addrs@.take(i + 1).drop_last() == addrs@.take(i as int));
                assert(addrs@.take(i + 1).last() == addrs@[i as int]);
                lemma_total_timeout(addrs@, i + 1);
            }
            nanos = nanos + addrs[i].config.checkout_timeout.nanos;
            let pool = Pool::new(&addrs[i], first_id + i as u64);
            targets.push(Target::new(pool, addrs[i].address.configured_role));
        }
        assert(addrs@.take(addrs@.len() as int) == addrs@);
        let mut primary_idx: Option<usize> = None;
        match primary {
            Some(pool) => {
                primary_idx = Some(targets.len());
                targets.push(Target::new(pool, Role::Primary));
            },
            None => {},
        }
        LoadBalancer {
            targets,
            checkout_timeout: Duration { nanos },
            round_robin: 0,
            lb_strategy,
            rw_split,
            primary_idx,
        }
    }

    /// Where the primary is among the servers, if there is one. Where it was last seen is looked
    /// up first, and corrected if it is not there any more.
    pub fn primary_target(&mut self) -> (r: Option<usize>)
        ensures
            r == find_primary(old(self).targets@, old(self).primary_idx),
            *final(self) == (LoadBalancer { primary_idx: r, ..*old(self) }),
            r matches Some(i) ==> i < old(self).targets@.len() && old(self).targets@[i as int].role
                == Role::Primary,
    {
        match self.primary_idx {
            None => None,
            Some(idx) => {
                if idx < self.targets.len() && self.targets[idx].role() == Role::Primary {
                    return Some(idx);
                }
                let found = self.find_last_primary();
                self.primary_idx = found;
                found
            },
        }
    }

    /// Where the primary is among the servers, if there is one.
    pub fn peek_primary(&self) -> (r: Option<usize>)
        ensures
            r == find_primary(self.targets@, self.primary_idx),
            r matches Some(i) ==> i < self.targets@.len() && self.targets@[i as int].role
                == Role::Primary,
    {
        match self.primary_idx {
            None => None,
            Some(idx) => {
                if idx < self.targets.len() && self.targets[idx].role() == Role::Primary {
                    return Some(idx);
                }
                self.find_last_primary()
            },
        }
    }

    /// The pool of the primary, if there is one. Where it was last seen is looked up first, and
    /// corrected if it is not there any more.
    pub fn primary(&mut self) -> (r: Option<&Pool>)
        ensures
            match find_primary(old(self).targets@, old(self).primary_idx) {
                Some(i) => r == Some(&old(self).targets@[i as int].pool),
                None => r is None,
            },
            *final(self) == (LoadBalancer {
                primary_idx: find_primary(old(self).targets@, old(self).primary_idx),
                ..*old(self)
            }),
    {
        match self.primary_target() {
            Some(idx) => Some(&self.targets[idx].pool),
            None => None,
        }
    }

    /// Forget where the primary was last seen, and look for it.
    pub(crate) fn look_for_primary(&mut self)
        ensures
            *final(self) == (LoadBalancer {
                primary_idx: last_primary(old(self).targets@),
                ..*old(self)
            }),
    {
        self.primary_idx = self.find_last_primary();
    }

    fn find_last_primary(&self) -> (r: Option<usize>)
        ensures
            r == last_primary(self.targets@),
            r matches Some(i) ==> i < self.targets@.len() && self.targets@[i as int].role
                == Role::Primary,
    {
        let mut i: usize = self.targets.len();
        assert(self.targets@.take(i as int) == self.targets@);
        while i > 0
            invariant
                i <= self.targets@.len(),
                last_primary(self.targets@) == last_primary(self.targets@.take(i as int)),
            decreases i,
        {
            i = i - 1;
            assert(self.targets@.take(i + 1).drop_last() == self.targets@.take(i as int));
            assert(self.targets@.take(i + 1).last() == self.targets@[i as int]);
            if self.targets[i].role() == Role::Primary {
                return Some(i);
            }
        }
        None
    }

    /// Make the server that leads and has the latest data the primary. If it was not, everyone
    /// else becomes a replica: `true` then.
    pub fn redetect_roles(&mut self, now: Instant) -> (r: bool)
        ensures
            redetected(*old(self), *final(self), now, r),
    {
        let mut best: Option<usize> = None;
        assert(self.targets@.take(0) == Seq::<Target>::empty());
        for i in 0..self.targets.len()
            invariant
                *self == *old(self),
                match best {
                    Some(b) => leader(self.targets@.take(i as int), now) == Some(b as int) && b < i,
                    None => leader(self.targets@.take(i as int), now) is None,
                },
        {
            proof {
                assert(self.targets@.take(i + 1).drop_last() == self.targets@.take(i as int));
                assert(self.targets@.take(i + 1).last() == self.targets@[i as int]);
            }
            let stats = self.targets[i].pool.lsn_stats;
            if !stats.replica && stats.valid {
                match best {
                    None => {
                        best = Some(i);
                    },
                    Some(b) => {
                        let age = now.duration_since(stats.fetched);
                        let other = now.duration_since(self.targets[b].pool.lsn_stats.fetched);
                        assert(self.targets@.take(i + 1)[b as int] == self.targets@[b as int]);
                        if age.nanos < other.nanos {
                            best = Some(i);
                        }
                    },
                }
            }
        }
        assert(self.targets@.take(self.targets@.len() as int) == self.targets@);
        let mut promoted = false;
        match best {
            Some(primary) => {
                if self.targets[primary].role() != Role::Primary {
                    promoted = true;
                    self.demote_others(primary);
                }
            },
            None => {},
        }
        let found = self.find_last_primary();
        self.primary_idx = found;
        promoted
    }

    /// Make one server the primary and all others replicas.
    fn demote_others(&mut self, primary: usize)
        requires
            primary < old(self).targets@.len(),
        ensures
            *final(self) == (LoadBalancer { targets: final(self).targets, ..*old(self) }),
            final(self).targets@.len() == old(self).targets@.len(),
            forall|i: int|
                0 <= i < old(self).targets@.len() ==> #[trigger] final(self).targets@[i] == (
                Target {
                    role: if i == primary {
                        Role::Primary
                    } else {
                        Role::Replica
                    },
                    ..old(self).targets@[i]
                }),
    {
        let mut i: usize = 0;
        while i < self.targets.len()
            invariant
                i <= self.targets@.len(),
                self.targets@.len() == old(self).targets@.len(),
                *self == (LoadBalancer { targets: self.targets, ..*old(self) }),
                forall|k: int|
                    0 <= k < i ==> #[trigger] self.targets@[k] == (Target {
                        role: if k == primary {
                            Role::Primary
                        } else {
                            Role::Replica
                        },
                        ..old(self).targets@[k]
                    }),
                forall|k: int|
                    i <= k < self.targets@.len() ==> #[trigger] self.targets@[k] == old(self).targets@[k],
            decreases self.targets@.len() - i,
        {
            let role = if i == primary {
                Role::Primary
            } else {
                Role::Replica
            };
            let _ = self.targets[i].set_role(role);
            i = i + 1;
        }
    }

    /// All pools are online.
    pub fn online(&self) -> (r: bool)
        ensures
            r == all_online(self.targets@),
    {
        for i in 0..self.targets.len()
            invariant
                forall|k: int| 0 <= k < i ==> (#[trigger] self.targets@[k]).pool.inner.online,
        {
            if !self.targets[i].pool.inner.online {
                return false;
            }
        }
        true
    }

    /// The first server that may be used, whose announced settings stand for all.
    pub fn params_target(&self) -> (r: Result<usize, Error>)
        ensures
            speaks_for_all(self.targets@, r),
    {
        for i in 0..self.targets.len()
            invariant
                forall|k: int| 0 <= k < i ==> (#[trigger] self.targets@[k]).ban.active(),
        {
            if !self.targets[i].ban.banned() {
                return Ok(i);
            }
        }
        Err(Error::AllReplicasDown)
    }

    /// The two load balancers are over the same servers, in the same order.
    pub fn can_move_conns_to(&self, destination: &LoadBalancer) -> (r: bool)
        ensures
            r <==> self.targets@.len() == destination.targets@.len() && forall|i: int|
                0 <= i < self.targets@.len() ==> same_address(
                    (#[trigger] self.targets@[i]).pool.addr,
                    destination.targets@[i].pool.addr,
                ),
    {
        if self.targets.len() != destination.targets.len() {
            return false;
        }
        for i in 0..self.targets.len()
            invariant
                self.targets@.len() == destination.targets@.len(),
                forall|k: int|
                    0 <= k < i ==> same_address(
                        (#[trigger] self.targets@[k]).pool.addr,
                        destination.targets@[k].pool.addr,
                    ),
        {
            if !self.targets[i].pool.can_move_conns_to(&destination.targets[i].pool) {
                assert(!same_address(
                    self.targets@[i as int].pool.addr,
                    destination.targets@[i as int].pool.addr,
                ));
                return false;
            }
        }
        true
    }

    /// Some server can serve reads of replicas. One whose role is not known yet may turn out to be
    /// a replica.
    pub fn has_replicas(&self) -> (r: bool)
        ensures
            r <==> exists|i: int|
                0 <= i < self.targets@.len() && (#[trigger] self.targets@[i]).role
                    != Role::Primary,
    {
        for i in 0..self.targets.len()
            invariant
                forall|k: int| 0 <= k < i ==> (#[trigger] self.targets@[k]).role == Role::Primary,
        {
            match self.targets[i].role() {
                Role::Replica | Role::Auto => {
                    return true;
                },
                Role::Primary => {},
            }
        }
        false
    }

    /// All pools.
    pub fn pools(&self) -> (r: Vec<&Pool>)
        ensures
            r@.len() == self.targets@.len(),
            forall|i: int|
                0 <= i < r@.len() ==> *(#[trigger] r@[i]) == self.targets@[i].pool,
    {
        let mut out: Vec<&Pool> = Vec::new();
        for i in 0..self.targets.len()
            invariant
                out@.len() == i,
                forall|k: int| 0 <= k < i ==> *(#[trigger] out@[k]) == self.targets@[k].pool,
        {
            out.push(&self.targets[i].pool);
        }
        out
    }

    /// Roles, bans and identifiers of all pools.
    pub fn pools_with_roles_and_bans(&self) -> (r: Vec<(Role, Ban, u64)>)
        ensures
            r@ == self.targets@.map_values(|t: Target| (t.role, t.ban, t.pool.id)),
    {
        let mut out: Vec<(Role, Ban, u64)> = Vec::new();
        for i in 0..self.targets.len()
            invariant
                out@ == self.targets@.take(i as int).map_values(
                    |t: Target| (t.role, t.ban, t.pool.id),
                ),
        {
            out.push((self.targets[i].role, self.targets[i].ban, self.targets[i].pool.id));
            assert(out@ == self.targets@.take(i + 1).map_values(
                |t: Target| (t.role, t.ban, t.pool.id),
            ));
        }
        assert(self.targets@.take(self.targets@.len() as int) == self.targets@);
        out
    }

    /// The role of every server is known.
    pub fn roles_detected(&self) -> (r: bool)
        ensures
            r == all_detected(self.targets@),
    {
        for i in 0..self.targets.len()
            invariant
                forall|k: int| 0 <= k < i ==> (#[trigger] self.targets@[k]).role != Role::Auto,
        {
            if self.targets[i].role() == Role::Auto {
                return false;
            }
        }
        true
    }

    /// The pool of the primary, for a client that has to have it.
    pub fn get_primary(&mut self) -> (r: Result<usize, Error>)
        ensures
            r == match find_primary(old(self).targets@, old(self).primary_idx) {
                Some(i) => Ok::<usize, Error>(i),
                None => Err(Error::NoPrimary),
            },
            *final(self) == (LoadBalancer {
                primary_idx: find_primary(old(self).targets@, old(self).primary_idx),
                ..*old(self)
            }),
    {
        match self.primary_target() {
            Some(idx) => Ok(idx),
            None => Err(Error::NoPrimary),
        }
    }

    /// Servers that a read can go to.
    pub fn read_candidates(&self) -> (r: Result<Vec<usize>, Error>)
        ensures
            unless_empty(r, read_targets(self.rw_split, self.targets@)),
            r matches Ok(c) ==> valid_candidates(self.targets@, c@),
    {
        let mut candidates: Vec<usize> = Vec::new();
        let mut primaries: Vec<usize> = Vec::new();
        let mut any_replica = false;
        let mut all_banned = true;
        let ghost others = |t: Target| serving(t) && t.role != Role::Primary;
        let ghost leaders = |t: Target| serving(t) && t.role == Role::Primary;
        assert(self.targets@.take(0) == Seq::<Target>::empty());
        for i in 0..self.targets.len()
            invariant
                others == (|t: Target| serving(t) && t.role != Role::Primary),
                leaders == (|t: Target| serving(t) && t.role == Role::Primary),
                candidates@ == picks(self.targets@.take(i as int), others),
                primaries@ == picks(self.targets@.take(i as int), leaders),
                all_banned <==> all_replicas_banned(self.targets@.take(i as int)),
                any_replica <==> !no_replicas(self.targets@.take(i as int)),
        {
            let target = &self.targets[i];
            let ghost before = self.targets@.take(i as int);
            let ghost after = self.targets@.take(i + 1);
            proof {
                assert(after.drop_last() == before);
                assert(after.last() == *target);
                assert(forall|k: int| 0 <= k < before.len() ==> after[k] == #[trigger] before[k]);
                lemma_replicas_step(before, *target);
                assert(before.push(*target) == after);
            }
            if !target.pool.config.resharding_only {
                match target.role() {
                    Role::Primary => {
                        primaries.push(i);
                    },
                    Role::Replica => {
                        any_replica = true;
                        if !target.ban.banned() {
                            all_banned = false;
                        }
                        candidates.push(i);
                    },
                    Role::Auto => {
                        candidates.push(i);
                    },
                }
            }
        }
        assert(self.targets@.take(self.targets@.len() as int) == self.targets@);
        let include_primary = match self.rw_split {
            ReadWriteSplit::IncludePrimary => true,
            ReadWriteSplit::IncludePrimaryIfReplicaBanned
            | ReadWriteSplit::PreferPrimary => all_banned,
            ReadWriteSplit::ExcludePrimary => !any_replica,
        };
        if include_primary {
            candidates.append(&mut primaries);
        }
        assert(candidates@ == read_targets(self.rw_split, self.targets@));
        proof {
            assert(self.targets.len() == self.targets@.len());
            lemma_read_targets(self.rw_split, self.targets@);
        }
        if candidates.is_empty() {
            return Err(Error::AllReplicasDown);
        }
        Ok(candidates)
    }

    /// Servers that a read can go to whatever the separation of reads and writes.
    pub fn any_read(&self) -> (r: Result<Vec<usize>, Error>)
        ensures
            unless_empty(r, picks(self.targets@, |t: Target| serving(t))),
            r matches Ok(c) ==> valid_candidates(self.targets@, c@),
    {
        let mut candidates: Vec<usize> = Vec::new();
        let ghost p = |t: Target| serving(t);
        assert(self.targets@.take(0) == Seq::<Target>::empty());
        for i in 0..self.targets.len()
            invariant
                p == (|t: Target| serving(t)),
                candidates@ == picks(self.targets@.take(i as int), p),
        {
            proof {
                assert(self.targets@.take(i + 1).drop_last() == self.targets@.take(i as int));
                assert(self.targets@.take(i + 1).last() == self.targets@[i as int]);
            }
            if !self.targets[i].pool.config.resharding_only {
                candidates.push(i);
            }
        }
        assert(self.targets@.take(self.targets@.len() as int) == self.targets@);
        if candidates.is_empty() {
            return Err(Error::AllReplicasDown);
        }
        proof {
            assert(self.targets.len() == self.targets@.len());
            lemma_picks(self.targets@, p);
        }
        Ok(candidates)
    }

    /// Replicas that take part in regular traffic.
    pub fn replica_candidates(&self) -> (r: Vec<usize>)
        ensures
            r@ == picks(self.targets@, |t: Target| serving(t) && t.role == Role::Replica),
    {
        let mut candidates: Vec<usize> = Vec::new();
        let ghost p = |t: Target| serving(t) && t.role == Role::Replica;
        assert(self.targets@.take(0) == Seq::<Target>::empty());
        for i in 0..self.targets.len()
            invariant
                p == (|t: Target| serving(t) && t.role == Role::Replica),
                candidates@ == picks(self.targets@.take(i as int), p),
        {
            proof {
                assert(self.targets@.take(i + 1).drop_last() == self.targets@.take(i as int));
                assert(self.targets@.take(i + 1).last() == self.targets@[i as int]);
            }
            if self.targets[i].role() == Role::Replica
                && !self.targets[i].pool.config.resharding_only {
                candidates.push(i);
            }
        }
        assert(self.targets@.take(self.targets@.len() as int) == self.targets@);
        candidates
    }
}

/// The servers that a read can go to are different servers that take part in regular traffic.
pub(crate) proof fn lemma_read_targets(split: ReadWriteSplit, targets: Seq<Target>)
    requires
        targets.len() <= usize::MAX,
    ensures
        valid_candidates(targets, read_targets(split, targets)),
        forall|k: int|
            0 <= k < read_targets(split, targets).len() ==> serving(
                targets[#[trigger] read_targets(split, targets)[k] as int],
            ),
{
    let others = |t: Target| serving(t) && t.role != Role::Primary;
    let leaders = |t: Target| serving(t) && t.role == Role::Primary;
    lemma_picks(targets, others);
    lemma_picks(targets, leaders);
    let a = picks(targets, others);
    let b = picks(targets, leaders);
    let all = read_targets(split, targets);
    assert forall|x: int, y: int| 0 <= x < y < all.len() implies all[x] != all[y] by {
        if y < a.len() {
            assert(all[x] == a[x] && all[y] == a[y]);
        } else if x >= a.len() {
            assert(all[x] == b[x - a.len()] && all[y] == b[y - a.len()]);
        } else {
            assert(all[x] == a[x] && all[y] == b[y - a.len()]);
            assert(others(targets[a[x] as int]));
            assert(leaders(targets[b[y - a.len()] as int]));
        }
    }
    assert forall|k: int| 0 <= k < all.len() implies (#[trigger] all[k]) < targets.len()
        && serving(targets[all[k] as int]) by {
        if k < a.len() {
            assert(all[k] == a[k]);
            assert(others(targets[a[k] as int]));
        } else {
            assert(all[k] == b[k - a.len()]);
            assert(leaders(targets[b[k - a.len()] as int]));
        }
    }
}

/// Where reads go: every serving server that is not the primary can be read from; the primary can
/// be if and only if the setting says so, which with a serving replica means never when it is
/// excluded, and only once all replicas are banned when it is a fallback.
pub proof fn reads_follow_the_split(split: ReadWriteSplit, targets: Seq<Target>, i: int)
    requires
        targets.len() <= usize::MAX,
        0 <= i < targets.len(),
    ensures
        read_targets(split, targets).contains(i as usize) <==> serving(targets[i]) && (
        targets[i].role != Role::Primary || reads_primary(split, targets)),
        split == ReadWriteSplit::ExcludePrimary && !no_replicas(targets) && targets[i].role
            == Role::Primary ==> !read_targets(split, targets).contains(i as usize),
{
    let others = |t: Target| serving(t) && t.role != Role::Primary;
    let leaders = |t: Target| serving(t) && t.role == Role::Primary;
    lemma_picks(targets, others);
    lemma_picks(targets, leaders);
    let a = picks(targets, others);
    let b = picks(targets, leaders);
    let all = read_targets(split, targets);
    if all.contains(i as usize) {
        let k = choose|k: int| 0 <= k < all.len() && all[k] == i as usize;
        if k < a.len() {
            assert(all[k] == a[k]);
            assert(others(targets[a[k] as int]));
        } else {
            assert(all[k] == b[k - a.len()]);
            assert(leaders(targets[b[k - a.len()] as int]));
        }
    }
    if others(targets[i]) {
        assert(a.contains(i as usize));
        let k = choose|k: int| 0 <= k < a.len() && a[k] == i as usize;
        assert(all[k] == i as usize);
    }
    if leaders(targets[i]) && reads_primary(split, targets) {
        assert(b.contains(i as usize));
        let k = choose|k: int| 0 <= k < b.len() && b[k] == i as usize;
        assert(all[a.len() + k] == i as usize);
    }
}

proof fn lemma_total_timeout(addrs: Seq<PoolConfig>, n: int)
    requires
        0 <= n <= addrs.len(),
    ensures
        0 <= total_timeout(addrs.take(n)) <= total_timeout(addrs),
    decreases addrs.len(),
{
    if n == addrs.len() {
        assert(addrs.take(n) == addrs);
        if addrs.len() > 0 {
            lemma_total_timeout(addrs.drop_last(), addrs.len() - 1);
            assert(addrs.drop_last().take(addrs.len() - 1) == addrs.drop_last());
        }
    } else {
        lemma_total_timeout(addrs.drop_last(), n);
        assert(addrs.drop_last().take(n) == addrs.take(n));
    }
}

proof fn lemma_replicas_step(before: Seq<Target>, t: Target)
    ensures
        all_replicas_banned(before.push(t)) <==> all_replicas_banned(before) && (serving(t)
            && t.role == Role::Replica ==> t.ban.active()),
        no_replicas(before.push(t)) <==> no_replicas(before) && (serving(t) ==> t.role
            != Role::Replica),
{
    let after = before.push(t);
    assert(after[before.len() as int] == t);
    assert(forall|i: int| 0 <= i < before.len() ==> #[trigger] after[i] == before[i]);
    assert(forall|i: int| 0 <= i < before.len() ==> after[i] == #[trigger] before[i]);
}

} // verus!
