//! What a pool and the servers of a shard owe to clients, told by what can be seen of them.
//!
//! Other modules say step by step what comes of an operation. The laws here say what has to hold of
//! the result, whatever the steps are.

#[allow(unused_imports)]
use crate::config::database::{LoadBalancingStrategy, ReadWriteSplit, Role};
#[allow(unused_imports)]
use crate::pool::ban::BanEntry;
#[allow(unused_imports)]
use crate::pool::error::Error;
#[allow(unused_imports)]
use crate::pool::lb::{
    all_detected, all_online, speaks_for_all, unless_empty,
    by_load, by_load_sorts, find_primary, last_primary, leader, lemma_inserted, lemma_picks, loads,
    picks, read_targets, reads_follow_the_split, redetected, running_of, serving, valid_candidates,
    weights_of, LoadBalancer, Target,
};
#[allow(unused_imports)]
use crate::pool::monitor::{
    all_idle_closed, bannable, checked, closed_by_check, fit, looked_at, none_is_fit, target_moved,
};
#[allow(unused_imports)]
use crate::pool::inner::{all_closed_for, closed_for};
#[allow(unused_imports)]
use crate::server::connection::DisconnectReason;
#[allow(unused_imports)]
use crate::pool::pool::ReplicaLag;
#[allow(unused_imports)]
use crate::pool::routing::{
    after_exhaustion, after_failure, after_preferred_failure, bans_lifted, lemma_only_primary,
    next_usable, ordered_by, ordering_keeps_candidates, preferred_read_begun, replica_picks,
    PreferredAction, PreferredRead,
};
#[allow(unused_imports)]
use crate::pool::weighted::{after_round, chosen, lemma_last_max, raised, rounds_are_exact, sum};
#[allow(unused_imports)]
use crate::server::connection::Server;
#[allow(unused_imports)]
use crate::time::Instant;
use vstd::prelude::*;

verus! {

proof fn lemma_freshest(targets: Seq<Target>, now: Instant)
    ensures
        match leader(targets, now) {
            Some(p) => {
                &&& 0 <= p < targets.len()
                &&& !targets[p].pool.lsn_stats.replica && targets[p].pool.lsn_stats.valid
                &&& forall|j: int|
                    0 <= j < targets.len() && !(#[trigger] targets[j]).pool.lsn_stats.replica
                        && targets[j].pool.lsn_stats.valid ==> {
                        let mine = targets[p].pool.lsn_stats.fetched.nanos;
                        let other = targets[j].pool.lsn_stats.fetched.nanos;
                        &&& other <= mine || now.nanos <= mine
                        &&& j < p ==> other < mine && other < now.nanos
                    }
            },
            None => forall|j: int|
                0 <= j < targets.len() ==> (#[trigger] targets[j]).pool.lsn_stats.replica
                    || !targets[j].pool.lsn_stats.valid,
        },
    decreases targets.len(),
{
    if targets.len() > 0 {
        let short = targets.drop_last();
        lemma_freshest(short, now);
        assert forall|j: int| 0 <= j < short.len() implies #[trigger] targets[j] == short[j] by {}
    }
}

/// The server says that it leads.
pub open spec fn says_it_leads(t: Target) -> bool {
    t.pool.lsn_stats.valid && !t.pool.lsn_stats.replica
}

/// Nobody who says that it leads has a fresher report than this server. A report from the future
/// is no fresher than one from now.
pub open spec fn is_freshest(targets: Seq<Target>, p: int, now: Instant) -> bool {
    forall|j: int|
        0 <= j < targets.len() && says_it_leads(#[trigger] targets[j]) ==> {
            let mine = targets[p].pool.lsn_stats.fetched.nanos;
            let other = targets[j].pool.lsn_stats.fetched.nanos;
            &&& other <= mine || now.nanos <= mine
            &&& j < p ==> other < mine && other < now.nanos
        }
}

/// A failover is followed: whoever is made the primary says that it leads, has the freshest report
/// of all who say so, the first one among equals, and was not the primary before; all others are
/// replicas then, and writes go to the new primary.
pub proof fn the_freshest_leader_is_promoted(
    before: LoadBalancer,
    after: LoadBalancer,
    now: Instant,
    p: int,
)
    requires
        redetected(before, after, now, true),
        0 <= p < after.targets@.len() <= usize::MAX,
    ensures
        exists|q: int| 0 <= q < after.targets@.len() && (#[trigger] after.targets@[q]).role == Role::Primary,
        after.targets@[p].role == Role::Primary ==> {
            &&& says_it_leads(before.targets@[p])
            &&& is_freshest(before.targets@, p, now)
            &&& before.targets@[p].role != Role::Primary
            &&& after.primary_idx == Some(p as usize)
        },
        after.targets@[p].role != Role::Primary ==> after.targets@[p].role == Role::Replica,
        after.targets@[p].pool == before.targets@[p].pool,
        after.targets@[p].ban == before.targets@[p].ban,
{
    lemma_freshest(before.targets@, now);
    let q = leader(before.targets@, now)->Some_0;
    assert(after.targets@[q].role == Role::Primary);
    lemma_only_primary(after.targets@, q);
}

/// Where nobody is promoted, nothing changes, and either nobody says that it leads, or the one with
/// the freshest report is the primary already.
pub proof fn without_promotion_the_freshest_leads(
    before: LoadBalancer,
    after: LoadBalancer,
    now: Instant,
    j: int,
)
    requires
        redetected(before, after, now, false),
        0 <= j < before.targets@.len(),
    ensures
        after.targets@ == before.targets@,
        says_it_leads(before.targets@[j]) ==> exists|p: int|
            0 <= p < before.targets@.len() && (#[trigger] before.targets@[p]).role == Role::Primary
                && says_it_leads(before.targets@[p]) && is_freshest(before.targets@, p, now),
{
    lemma_freshest(before.targets@, now);
    if says_it_leads(before.targets@[j]) {
        let p = leader(before.targets@, now)->Some_0;
        assert(is_freshest(before.targets@, p, now));
        assert(before.targets@[p].role == Role::Primary);
    }
}

proof fn lemma_last_primary(targets: Seq<Target>)
    requires
        targets.len() <= usize::MAX,
    ensures
        match last_primary(targets) {
            Some(i) => i < targets.len() && targets[i as int].role == Role::Primary && forall|j: int|
                i < j < targets.len() ==> (#[trigger] targets[j]).role != Role::Primary,
            None => forall|j: int|
                0 <= j < targets.len() ==> (#[trigger] targets[j]).role != Role::Primary,
        },
    decreases targets.len(),
{
    if targets.len() > 0 {
        let short = targets.drop_last();
        lemma_last_primary(short);
        assert forall|j: int| 0 <= j < short.len() implies #[trigger] targets[j] == short[j] by {}
    }
}

/// Writes go to a primary and to nobody else: where one was seen, it is used as long as it is one;
/// else the last server that is a primary is found, if there is any. A load balancer that never had
/// a primary does not look for one.
pub proof fn writes_go_to_a_primary(targets: Seq<Target>, seen: Option<usize>, j: int)
    requires
        targets.len() <= usize::MAX,
        0 <= j < targets.len(),
    ensures
        seen is None ==> find_primary(targets, seen) is None,
        find_primary(targets, seen) matches Some(i) ==> {
            &&& i < targets.len()
            &&& targets[i as int].role == Role::Primary
            &&& seen != Some(i) ==> (j > i ==> targets[j].role != Role::Primary)
        },
        seen == Some(j as usize) && targets[j].role == Role::Primary ==> find_primary(targets, seen)
            == seen,
        seen is Some && targets[j].role == Role::Primary ==> find_primary(targets, seen) is Some,
{
    lemma_last_primary(targets);
}

/// A read that is not bound to the primary goes to any server that takes part in regular traffic,
/// and to no other one. Whether the primary is among them is up to the setting: always, or once all
/// replicas in regular traffic are banned, or only if there are none.
pub proof fn reads_go_where_they_may(split: ReadWriteSplit, targets: Seq<Target>, i: int)
    requires
        targets.len() <= usize::MAX,
        0 <= i < targets.len(),
    ensures
        read_targets(split, targets).contains(i as usize) <==> {
            &&& !targets[i].pool.config.resharding_only
            &&& targets[i].role != Role::Primary || match split {
                ReadWriteSplit::IncludePrimary => true,
                ReadWriteSplit::ExcludePrimary => forall|k: int|
                    0 <= k < targets.len() && (#[trigger] targets[k]).role == Role::Replica
                        ==> targets[k].pool.config.resharding_only,
                _ => forall|k: int|
                    0 <= k < targets.len() && (#[trigger] targets[k]).role == Role::Replica
                        ==> targets[k].pool.config.resharding_only || targets[k].ban.entry is Some,
            }
        },
{
    reads_follow_the_split(split, targets, i);
}

/// The primary is the last resort of a read: all other servers come before it. Among each of these
/// two groups servers are in the order in which they are configured, each of them once.
pub proof fn reads_come_to_the_primary_last(split: ReadWriteSplit, targets: Seq<Target>, a: int, b: int)
    requires
        targets.len() <= usize::MAX,
        0 <= a < b < read_targets(split, targets).len(),
    ensures
        ({
            let x = read_targets(split, targets)[a];
            let y = read_targets(split, targets)[b];
            &&& x < targets.len() && y < targets.len()
            &&& targets[x as int].role == Role::Primary ==> targets[y as int].role == Role::Primary
            &&& (targets[x as int].role == Role::Primary) == (targets[y as int].role
                == Role::Primary) ==> x < y
        }),
{
    let others = |t: Target| serving(t) && t.role != Role::Primary;
    let leaders = |t: Target| serving(t) && t.role == Role::Primary;
    lemma_picks(targets, others);
    lemma_picks(targets, leaders);
    let p = picks(targets, others);
    let q = picks(targets, leaders);
    let all = read_targets(split, targets);
    if b < p.len() {
        assert(all[a] == p[a] && all[b] == p[b]);
    } else if a < p.len() {
        assert(all[a] == p[a] && all[b] == q[b - p.len()]);
    } else {
        assert(all[a] == q[a - p.len()] && all[b] == q[b - p.len()]);
    }
}

/// Servers that do not take part in regular traffic get no reads at all, whatever the request says;
/// all others can be had by a request that any server will do for.
pub proof fn any_read_goes_anywhere_in_traffic(targets: Seq<Target>, i: int)
    requires
        targets.len() <= usize::MAX,
        0 <= i < targets.len(),
    ensures
        picks(targets, |t: Target| serving(t)).contains(i as usize)
            <==> !targets[i].pool.config.resharding_only,
        replica_picks(targets).contains(i as usize) <==> !targets[i].pool.config.resharding_only
            && targets[i].role == Role::Replica,
{
    let p = |t: Target| serving(t);
    let q = |t: Target| serving(t) && t.role == Role::Replica;
    lemma_picks(targets, p);
    lemma_picks(targets, q);
    if picks(targets, p).contains(i as usize) {
        let k = choose|k: int| 0 <= k < picks(targets, p).len() && picks(targets, p)[k] == i as usize;
        assert(p(targets[picks(targets, p)[k] as int]));
    }
    if picks(targets, q).contains(i as usize) {
        let k = choose|k: int| 0 <= k < picks(targets, q).len() && picks(targets, q)[k] == i as usize;
        assert(q(targets[picks(targets, q)[k] as int]));
    }
}

/// Round robin goes round: the order begins with the candidate whose turn it is, goes on to the end
/// of the list and on from its start; the turn moves on by one, and nothing else changes.
pub proof fn round_robin_goes_round(
    before: LoadBalancer,
    after: LoadBalancer,
    candidates: Seq<usize>,
    ordered: Seq<usize>,
    k: int,
)
    requires
        before.lb_strategy == LoadBalancingStrategy::RoundRobin,
        ordered_by(before, after, candidates, ordered),
        0 <= k < candidates.len(),
    ensures
        ordered.len() == candidates.len(),
        ordered[k] == candidates[(before.round_robin + k) % (candidates.len() as int)],
        before.round_robin < usize::MAX ==> after.round_robin == before.round_robin + 1,
        before.round_robin == usize::MAX ==> after.round_robin == 0,
        after.targets == before.targets,
        after.primary_idx == before.primary_idx,
{
    let n = candidates.len() as int;
    let rr = before.round_robin as int;
    let first = rr % n;
    assert(0 <= first < n);
    assert((rr + k) % n == if first + k < n {
        first + k
    } else {
        first + k - n
    }) by {
        vstd::arithmetic::div_mod::lemma_fundamental_div_mod(rr, n);
        let q = rr / n;
        if first + k < n {
            vstd::arithmetic::div_mod::lemma_fundamental_div_mod_converse(rr + k, n, q, first + k);
        } else {
            assert(n * (q + 1) == n * q + n) by (nonlinear_arith);
            vstd::arithmetic::div_mod::lemma_fundamental_div_mod_converse(
                rr + k,
                n,
                q + 1,
                first + k - n,
            );
        }
    }
    if first + k < n {
        assert(ordered[k] == candidates.skip(first)[k]);
    } else {
        assert(ordered[k] == candidates.take(first)[first + k - n]);
    }
}

proof fn lemma_by_load_stable(s: Seq<usize>, load: Seq<usize>)
    ensures
        by_load(s, load).len() == s.len(),
        forall|a: int, b: int|
            0 <= a < b < by_load(s, load).len() && load[#[trigger] by_load(s, load)[a] as int]
                == load[#[trigger] by_load(s, load)[b] as int] ==> exists|i: int, j: int|
                0 <= i < j < s.len() && #[trigger] s[i] == by_load(s, load)[a] && #[trigger] s[j]
                    == by_load(s, load)[b],
    decreases s.len(),
{
    if s.len() > 0 {
        let short = s.drop_last();
        let x = s.last();
        lemma_by_load_stable(short, load);
        by_load_sorts(short, load);
        by_load_sorts(s, load);
        let r = by_load(short, load);
        let at = lemma_insert_place(r, x, load);
        lemma_inserted(r, x, load, at);
        let all = by_load(s, load);
        assert(all == r.insert(at, x));
        assert forall|a: int, b: int|
            0 <= a < b < all.len() && load[#[trigger] all[a] as int] == load[
            #[trigger] all[b] as int] implies exists|i: int, j: int|
            0 <= i < j < s.len() && #[trigger] s[i] == all[a] && #[trigger] s[j] == all[b] by {
            if a == at {
                assert(all[b] == r[b - 1]);
                assert(load[r[b - 1] as int] > load[x as int]);
            } else if b == at {
                let y = all[a];
                assert(y == r[a]);
                lemma_by_load_members(short, load, a);
                let i = choose|i: int| 0 <= i < short.len() && short[i] == y;
                assert(s[i] == y && s[s.len() - 1] == x);
            } else {
                let c = if a < at {
                    a
                } else {
                    a - 1
                };
                let d = if b < at {
                    b
                } else {
                    b - 1
                };
                assert(all[a] == r[c] && all[b] == r[d]);
                let (i, j) = choose|i: int, j: int|
                    0 <= i < j < short.len() && #[trigger] short[i] == r[c] && #[trigger] short[j]
                        == r[d];
                assert(s[i] == all[a] && s[j] == all[b]);
            }
        }
    }
}

proof fn lemma_by_load_members(s: Seq<usize>, load: Seq<usize>, a: int)
    requires
        0 <= a < by_load(s, load).len(),
    ensures
        s.contains(by_load(s, load)[a]),
{
    broadcast use vstd::seq_lib::group_to_multiset_ensures;

    by_load_sorts(s, load);
    let r = by_load(s, load);
    assert(r.contains(r[a]));
    assert(r.to_multiset().count(r[a]) > 0);
    assert(s.to_multiset().count(r[a]) > 0);
}

proof fn lemma_insert_place(s: Seq<usize>, x: usize, load: Seq<usize>) -> (at: int)
    requires
        forall|a: int, b: int|
            0 <= a < b < s.len() ==> load[#[trigger] s[a] as int] <= load[#[trigger] s[b] as int],
    ensures
        0 <= at <= s.len(),
        at > 0 ==> load[s[at - 1] as int] <= load[x as int],
        forall|j: int| at <= j < s.len() ==> load[#[trigger] s[j] as int] > load[x as int],
    decreases s.len(),
{
    if s.len() == 0 {
        0
    } else if load[s.last() as int] <= load[x as int] {
        s.len() as int
    } else {
        let short = s.drop_last();
        assert forall|a: int, b: int| 0 <= a < b < short.len() implies load[
            #[trigger] short[a] as int] <= load[#[trigger] short[b] as int] by {
            assert(short[a] == s[a] && short[b] == s[b]);
        }
        let at = lemma_insert_place(short, x, load);
        assert forall|j: int| at <= j < s.len() implies load[#[trigger] s[j] as int]
            > load[x as int] by {
            if j < short.len() {
                assert(short[j] == s[j]);
            }
        }
        at
    }
}

/// Least active connections puts servers with fewer connections handed out first, and leaves equals
/// in the order in which they were. Nothing changes in the load balancer.
pub proof fn the_least_busy_come_first(
    before: LoadBalancer,
    after: LoadBalancer,
    candidates: Seq<usize>,
    ordered: Seq<usize>,
    a: int,
    b: int,
)
    requires
        before.lb_strategy == LoadBalancingStrategy::LeastActiveConnections,
        ordered_by(before, after, candidates, ordered),
        forall|k: int|
            0 <= k < candidates.len() ==> (#[trigger] candidates[k]) < before.targets@.len(),
        0 <= a < b < candidates.len(),
    ensures
        after == before,
        ordered.len() == candidates.len(),
        before.targets@[ordered[a] as int].pool.checked_out_count
            <= before.targets@[ordered[b] as int].pool.checked_out_count,
        before.targets@[ordered[a] as int].pool.checked_out_count
            == before.targets@[ordered[b] as int].pool.checked_out_count ==> exists|i: int, j: int|
            0 <= i < j < candidates.len() && #[trigger] candidates[i] == ordered[a]
                && #[trigger] candidates[j] == ordered[b],
{
    let load = loads(before.targets@);
    by_load_sorts(candidates, load);
    lemma_by_load_stable(candidates, load);
    lemma_by_load_members(candidates, load, a);
    lemma_by_load_members(candidates, load, b);
    assert(load[ordered[a] as int] == before.targets@[ordered[a] as int].pool.checked_out_count);
    assert(load[ordered[b] as int] == before.targets@[ordered[b] as int].pool.checked_out_count);
}

/// The weights that are configured for the candidates.
pub open spec fn own_weights(targets: Seq<Target>, candidates: Seq<usize>) -> Seq<int> {
    Seq::new(
        candidates.len(),
        |i: int| targets[candidates[i] as int].pool.config.lb_weight as int,
    )
}

/// Weighted round robin puts a server first whose running weight, with its own weight added, is the
/// largest, and takes the sum of all weights off it; the running weights of all other candidates
/// grow by their own weight. Servers that are no candidates stay as they are. Where all weights are
/// zero nothing changes.
pub proof fn the_heaviest_comes_first(
    before: LoadBalancer,
    after: LoadBalancer,
    candidates: Seq<usize>,
    ordered: Seq<usize>,
    k: int,
)
    requires
        before.lb_strategy == LoadBalancingStrategy::WeightedRoundRobin,
        ordered_by(before, after, candidates, ordered),
        valid_candidates(before.targets@, candidates),
        candidates.len() <= 0x1_0000_0000,
        forall|i: int|
            0 <= i < before.targets@.len() ==> -0x4000_0000_0000_0000 <= (
            #[trigger] before.targets@[i]).current_weight <= 0x4000_0000_0000_0000,
        0 <= k < candidates.len(),
    ensures
        ({
            let total = sum(own_weights(before.targets@, candidates));
            let old_k = before.targets@[candidates[k] as int];
            let new_k = after.targets@[candidates[k] as int];
            let old_first = before.targets@[ordered[0] as int];
            if total > 0 {
                &&& candidates.contains(ordered[0])
                &&& old_k.current_weight + old_k.pool.config.lb_weight <= old_first.current_weight
                    + old_first.pool.config.lb_weight
                &&& new_k.current_weight == old_k.current_weight + old_k.pool.config.lb_weight - (
                if candidates[k] == ordered[0] {
                    total
                } else {
                    0
                })
                &&& new_k.pool == old_k.pool && new_k.role == old_k.role && new_k.ban == old_k.ban
            } else {
                after.targets@ == before.targets@ && ordered == candidates
            }
        }),
{
    let weights = weights_of(before.targets@, candidates);
    let running = running_of(before.targets@, candidates);
    assert(weights =~= own_weights(before.targets@, candidates));
    assert forall|i: int| 0 <= i < running.len() implies -0x4000_0000_0000_0000
        <= #[trigger] running[i] <= 0x4000_0000_0000_0000 by {
        assert(before.targets@[candidates[i] as int].current_weight == running[i]);
    }
    rounds_are_exact(running, weights);
    if sum(weights) > 0 {
        let up = raised(running, weights);
        let m = chosen(running, weights);
        lemma_last_max(up);
        assert(ordered[0] == candidates[m]);
        assert(candidates.contains(ordered[0]));
        assert(up[k] <= up[m]);
        let (x, y) = (candidates[k] as int, candidates[m] as int);
        assert(up[k] == before.targets@[x].current_weight
            + before.targets@[x].pool.config.lb_weight);
        assert(up[m] == before.targets@[y].current_weight
            + before.targets@[y].pool.config.lb_weight);
        assert(after.targets@[x] == (Target {
            current_weight: after.targets@[x].current_weight,
            ..before.targets@[x]
        }));
        assert(after.targets@[x].current_weight == running_of(after.targets@, candidates)[k]);
        assert(running_of(after.targets@, candidates)[k] == after_round(running, weights)[k]);
        if k < m {
            assert(candidates[k] != candidates[m]);
        } else if m < k {
            assert(candidates[m] != candidates[k]);
        }
    }
}

/// Candidates are tried in order, and none that may be used is passed over: the next one is the
/// first that is not banned, and there is none only if all that are left are banned.
pub proof fn only_banned_candidates_are_passed_over(
    targets: Seq<Target>,
    candidates: Seq<usize>,
    from: int,
    j: int,
)
    requires
        0 <= from <= j < candidates.len(),
    ensures
        match next_usable(targets, candidates, from) {
            Some(k) => {
                &&& from <= k < candidates.len()
                &&& targets[candidates[k] as int].ban.entry is None
                &&& j < k ==> targets[candidates[j] as int].ban.entry is Some
            },
            None => targets[candidates[j] as int].ban.entry is Some,
        },
    decreases candidates.len() - from,
{
    if targets[candidates[from] as int].ban.entry is Some && from < j {
        only_banned_candidates_are_passed_over(targets, candidates, from + 1, j);
    } else if targets[candidates[from] as int].ban.entry is Some && from + 1 < candidates.len() {
        only_banned_candidates_are_passed_over(targets, candidates, from + 1, from + 1);
    }
}

/// A candidate that fails is banned from now on, for as long as its pool says, unless its pool is
/// offline, it is the only candidate, or it is banned already. A server that is banned has no idle
/// connections left. Nobody else is touched.
pub proof fn failing_gets_a_candidate_banned(
    before: LoadBalancer,
    after: LoadBalancer,
    candidates: nat,
    target: int,
    error: Error,
    now: Instant,
    closed: Seq<Server>,
    i: int,
)
    requires
        after_failure(before, after, candidates, target, error, now, closed),
        0 <= target < before.targets@.len(),
        0 <= i < before.targets@.len(),
    ensures
        i != target ==> after.targets@[i] == before.targets@[i],
        ({
            let (x, y) = (before.targets@[target], after.targets@[target]);
            if x.ban.entry is None && candidates >= 2 && error != Error::Offline {
                &&& y.ban.entry == Some(
                    BanEntry { error, created_at: now, ban_timeout: x.pool.config.ban_timeout },
                )
                &&& y.pool.inner.idle_connections@.len() == 0
                &&& closed.len() == x.pool.inner.idle_connections@.len()
            } else {
                y == x && closed.len() == 0
            }
        }),
        after.targets@[target].role == before.targets@[target].role,
        after.round_robin == before.round_robin && after.primary_idx == before.primary_idx,
{
}

/// Once all candidates failed, every one of them gets another chance, but for those that an
/// administrator banned. Nobody else's ban is touched.
pub proof fn everyone_gets_another_chance(
    before: Seq<Target>,
    after: Seq<Target>,
    which: Seq<usize>,
    i: int,
)
    requires
        bans_lifted(before, after, which),
        0 <= i < before.len() <= usize::MAX,
    ensures
        ({
            let by_hand = before[i].ban.entry matches Some(e) && e.error == Error::ManualBan;
            if which.contains(i as usize) && !by_hand {
                after[i].ban.entry is None
            } else {
                after[i].ban == before[i].ban
            }
        }),
        after[i].pool == before[i].pool && after[i].role == before[i].role,
{
}

/// The server is too far behind, in time or in bytes.
pub open spec fn lags(t: Target, threshold: ReplicaLag) -> bool {
    t.pool.replica_lag.duration.nanos >= threshold.duration.nanos || t.pool.replica_lag.bytes
        >= threshold.bytes
}

/// The server does not answer, or is too far behind.
pub open spec fn unwell(t: Target, threshold: ReplicaLag) -> bool {
    !t.pool.health || lags(t, threshold)
}

/// A check bans every server that does not answer or is too far behind, for the reason that holds
/// and for as long as its pool says, unless it is banned already, it is the only one, or bans are
/// off for it. A server that is well keeps its ban until it has run out, and then it is lifted; what
/// an administrator banned stays banned.
pub proof fn checks_ban_the_unwell(
    before: Seq<Target>,
    after: Seq<Target>,
    threshold: ReplicaLag,
    now: Instant,
    i: int,
    spared: int,
)
    requires
        checked(before, after, threshold, now),
        0 <= i < before.len(),
        // Not all servers would be banned.
        0 <= spared < before.len(),
        before.len() == 1 || !unwell(before[spared], threshold)
            || before[spared].pool.config.ban_timeout.nanos == 0,
    ensures
        after.len() == before.len(),
        after[i].role == before[i].role,
        unwell(before[i], threshold) ==> if before[i].ban.entry is None && before.len() >= 2
            && before[i].pool.config.ban_timeout.nanos > 0 {
            &&& after[i].ban.entry matches Some(e) && e.created_at == now && e.ban_timeout
                == before[i].pool.config.ban_timeout && e.error == if lags(before[i], threshold) {
                Error::ReplicaLag
            } else {
                Error::PoolUnhealthy
            }
            &&& after[i].pool.inner.idle_connections@.len() == 0
        } else {
            after[i] == before[i]
        },
        !unwell(before[i], threshold) ==> match before[i].ban.entry {
            None => after[i] == before[i],
            Some(e) => if e.error != Error::ManualBan && (e.created_at.nanos + e.ban_timeout.nanos
                <= now.nanos || e.ban_timeout.nanos == 0) {
                after[i].ban.entry is None && after[i].pool == before[i].pool
            } else {
                after[i] == before[i]
            },
        },
{
    if before.len() > 1 {
        assert(fit(before[spared], threshold) || !bannable(before[spared], true));
        assert(!none_is_fit(before, threshold));
    }
    assert(looked_at(before[i], after[i], threshold, now, before.len() > 1));
}

/// A check never takes the last server away: if all servers are unwell and would be banned, bans are
/// lifted instead, but for those that an administrator put there.
pub proof fn checks_never_ban_everyone(
    before: Seq<Target>,
    after: Seq<Target>,
    threshold: ReplicaLag,
    now: Instant,
    i: int,
)
    requires
        checked(before, after, threshold, now),
        before.len() > 1,
        0 <= i < before.len(),
        forall|k: int|
            0 <= k < before.len() ==> unwell(#[trigger] before[k], threshold)
                && before[k].pool.config.ban_timeout.nanos > 0,
    ensures
        after.len() == before.len(),
        after[i].pool == before[i].pool,
        match before[i].ban.entry {
            Some(e) if e.error == Error::ManualBan => after[i].ban == before[i].ban,
            _ => after[i].ban.entry is None,
        },
{
    assert forall|k: int| 0 <= k < before.len() implies !fit(#[trigger] before[k], threshold)
        && bannable(before[k], true) by {
        assert(unwell(before[k], threshold));
    }
    assert(none_is_fit(before, threshold));
}

/// A read that prefers the primary tries it first, and only if there is none, or it is banned, or it
/// failed, the replicas in regular traffic, all of them and nobody else. It gives up only if there
/// are none of these.
pub proof fn preferred_reads_fall_back_on_replicas(
    before: LoadBalancer,
    after: LoadBalancer,
    plan: PreferredRead,
    action: PreferredAction,
    i: int,
)
    requires
        preferred_read_begun(before, after, plan, action),
        0 <= i < before.targets@.len() <= usize::MAX,
    ensures
        before.primary_idx == Some(i as usize) && before.targets@[i].role == Role::Primary
            && before.targets@[i].ban.entry is None ==> action == PreferredAction::TryPrimary(
            i as usize,
        ),
        action matches PreferredAction::TryPrimary(t) ==> t < before.targets@.len()
            && before.targets@[t as int].role == Role::Primary
            && before.targets@[t as int].ban.entry is None && plan.primary == Some(t)
            && !plan.primary_was_banned,
        action matches PreferredAction::TryReplicas(run) ==> run.position == 0 && (
        run.candidates@.contains(i as usize) <==> before.targets@[i].role == Role::Replica
            && !before.targets@[i].pool.config.resharding_only),
        action matches PreferredAction::GiveUp(e) ==> {
            &&& before.targets@[i].role != Role::Replica
                || before.targets@[i].pool.config.resharding_only
            &&& e == if plan.primary is Some {
                Error::PreferredReadUnavailable
            } else {
                Error::AllReplicasDown
            }
        },
{
    broadcast use vstd::seq_lib::group_to_multiset_ensures;

    writes_go_to_a_primary(before.targets@, before.primary_idx, i);
    any_read_goes_anywhere_in_traffic(before.targets@, i);
    let looked = LoadBalancer { primary_idx: plan.primary, ..before };
    let replicas = replica_picks(before.targets@);
    match action {
        PreferredAction::TryReplicas(run) => {
            ordering_keeps_candidates(looked, after, replicas, run.candidates@);
            assert(run.candidates@.contains(i as usize) <==> run.candidates@.to_multiset().count(
                i as usize,
            ) > 0);
            assert(replicas.contains(i as usize) <==> replicas.to_multiset().count(i as usize) > 0);
        },
        _ => {},
    }
}

/// A primary that fails a read which prefers it is banned, unless its pool is offline or there is
/// nothing else to read from; then the client gets the error at once.
pub proof fn a_failing_primary_is_banned(
    before: LoadBalancer,
    after: LoadBalancer,
    plan: PreferredRead,
    error: Error,
    now: Instant,
    action: PreferredAction,
    closed: Seq<Server>,
    k: int,
)
    requires
        after_preferred_failure(before, after, plan, error, now, action, closed),
        plan.primary matches Some(i) && i < before.targets@.len(),
        0 <= k < before.targets@.len() <= usize::MAX,
    ensures
        ({
            let x = before.targets@[plan.primary->Some_0 as int];
            &&& error == Error::Offline ==> closed.len() == 0 && !(action is TryPrimary)
            &&& error != Error::Offline && before.targets@[k].role != Role::Primary ==> {
                &&& !(action is TryPrimary)
                &&& x.ban.entry is None ==> closed.len() == x.pool.inner.idle_connections@.len()
                &&& x.ban.entry is Some ==> closed.len() == 0
            }
            &&& error != Error::Offline && action == PreferredAction::GiveUp(error) && error
                != Error::PreferredReadUnavailable ==> before.targets@[k].role == Role::Primary
                && after == before && closed.len() == 0
            &&& error != Error::Offline && before.targets@[k].role != Role::Primary ==> after.targets@[
            plan.primary->Some_0 as int].ban.entry == if x.ban.entry is Some {
                x.ban.entry
            } else {
                Some(
                    BanEntry { error, created_at: now, ban_timeout: x.pool.config.ban_timeout },
                )
            }
        }),
{
    let i = plan.primary->Some_0 as int;
    if error != Error::Offline && before.targets@[k].role != Role::Primary {
        let middle = choose|middle: LoadBalancer| #[trigger]
            crate::pool::routing::one_banned(before.targets@, middle.targets@, i, error, now)
                && middle == (LoadBalancer { targets: middle.targets, ..before })
                && crate::pool::routing::falls_back(middle, after, plan.primary, action);
        let replicas = replica_picks(middle.targets@);
        if replicas.len() > 0 {
            assert(after.targets@[i].ban == middle.targets@[i].ban);
        }
    }
}

/// A read that found nobody lifts the ban of the primary only if the primary was not banned before
/// the read began, so that an outage is not masked.
pub proof fn earlier_bans_stay(before: LoadBalancer, after: LoadBalancer, plan: PreferredRead, k: int)
    requires
        after_exhaustion(before, after, plan),
        plan.primary matches Some(i) ==> i < before.targets@.len(),
        0 <= k < before.targets@.len() <= usize::MAX,
    ensures
        plan.primary_was_banned ==> after.targets@[k].ban == before.targets@[k].ban,
        plan.primary != Some(k as usize) ==> after.targets@[k].ban == before.targets@[k].ban,
        !plan.primary_was_banned && plan.primary == Some(k as usize) ==> match before.targets@[k].ban.entry {
            Some(e) if e.error == Error::ManualBan => after.targets@[k].ban == before.targets@[k].ban,
            _ => after.targets@[k].ban.entry is None,
        },
{
    if plan.primary is Some && !plan.primary_was_banned {
        let i = plan.primary->Some_0;
        assert(seq![i][0] == i);
        assert(seq![i].contains(i));
        if k != i {
            assert(!seq![i].contains(k as usize));
        }
    }
}

proof fn lemma_contains_both<T>(a: Seq<T>, b: Seq<T>, x: T)
    ensures
        (a + b).contains(x) <==> a.contains(x) || b.contains(x),
{
    if a.contains(x) {
        let i = choose|i: int| 0 <= i < a.len() && a[i] == x;
        assert((a + b)[i] == x);
    }
    if b.contains(x) {
        let i = choose|i: int| 0 <= i < b.len() && b[i] == x;
        assert((a + b)[a.len() + i] == x);
    }
    if (a + b).contains(x) {
        let i = choose|i: int| 0 <= i < (a + b).len() && (a + b)[i] == x;
        if i < a.len() {
            assert(a[i] == x);
        } else {
            assert(b[i - a.len()] == x);
        }
    }
}

/// Shutting a load balancer down closes the idle connections of every server, each because its pool
/// is offline unless it had a reason before. `i` is a server, `k` one of its idle connections.
pub proof fn shutting_down_closes_every_idle_connection(targets: Seq<Target>, i: int, k: int)
    requires
        0 <= i < targets.len(),
        0 <= k < targets[i].pool.inner.idle_connections@.len(),
    ensures
        ({
            let c = *targets[i].pool.inner.idle_connections@[k];
            all_idle_closed(targets).contains(
                Server {
                    disconnect_reason: if c.disconnect_reason is Some {
                        c.disconnect_reason
                    } else {
                        Some(DisconnectReason::Offline)
                    },
                    ..c
                },
            )
        }),
    decreases targets.len(),
{
    let short = targets.drop_last();
    let c = *targets[i].pool.inner.idle_connections@[k];
    let x = closed_for(c, DisconnectReason::Offline);
    let last = all_closed_for(
        targets.last().pool.inner.idle_connections@,
        DisconnectReason::Offline,
    );
    lemma_contains_both(all_idle_closed(short), last, x);
    if i < short.len() {
        assert(short[i] == targets[i]);
        shutting_down_closes_every_idle_connection(short, i, k);
    } else {
        assert(last[k] == x);
    }
}

/// A check closes the idle connections of every server that it bans. `i` is such a server, `k` one
/// of its idle connections.
pub proof fn checks_close_connections_of_the_banned(
    targets: Seq<Target>,
    threshold: ReplicaLag,
    i: int,
    k: int,
)
    requires
        0 <= i < targets.len(),
        0 <= k < targets[i].pool.inner.idle_connections@.len(),
        unwell(targets[i], threshold),
        targets[i].pool.config.ban_timeout.nanos > 0,
        targets[i].ban.entry is None,
    ensures
        ({
            let c = *targets[i].pool.inner.idle_connections@[k];
            closed_by_check(targets, threshold, true).contains(
                Server {
                    disconnect_reason: if c.disconnect_reason is Some {
                        c.disconnect_reason
                    } else {
                        Some(DisconnectReason::Offline)
                    },
                    ..c
                },
            )
        }),
        closed_by_check(targets, threshold, false).len() == 0,
    decreases targets.len(),
{
    lemma_lone_closes_nothing(targets, threshold);
    let short = targets.drop_last();
    let c = *targets[i].pool.inner.idle_connections@[k];
    let x = closed_for(c, DisconnectReason::Offline);
    let t = targets.last();
    let last = if !fit(t, threshold) && bannable(t, true) {
        crate::pool::lb::closed_by_ban(t)
    } else {
        Seq::empty()
    };
    lemma_contains_both(closed_by_check(short, threshold, true), last, x);
    if i < short.len() {
        assert(short[i] == targets[i]);
        checks_close_connections_of_the_banned(short, threshold, i, k);
    } else {
        assert(last[k] == x);
    }
}

proof fn lemma_lone_closes_nothing(targets: Seq<Target>, threshold: ReplicaLag)
    ensures
        closed_by_check(targets, threshold, false).len() == 0,
    decreases targets.len(),
{
    if targets.len() > 0 {
        lemma_lone_closes_nothing(targets.drop_last(), threshold);
    }
}

/// A check closes nothing of a server that is well, or that was banned before.
pub proof fn checks_close_nothing_else(targets: Seq<Target>, threshold: ReplicaLag, several: bool)
    requires
        forall|i: int|
            0 <= i < targets.len() ==> !unwell(#[trigger] targets[i], threshold)
                || targets[i].ban.entry is Some || targets[i].pool.config.ban_timeout.nanos == 0,
    ensures
        closed_by_check(targets, threshold, several).len() == 0,
    decreases targets.len(),
{
    if targets.len() > 0 {
        let short = targets.drop_last();
        assert forall|i: int| 0 <= i < short.len() implies !unwell(#[trigger] short[i], threshold)
            || short[i].ban.entry is Some || short[i].pool.config.ban_timeout.nanos == 0 by {
            assert(short[i] == targets[i]);
        }
        checks_close_nothing_else(short, threshold, several);
        let t = targets[targets.len() - 1];
        assert(!unwell(t, threshold) || t.ban.entry is Some || t.pool.config.ban_timeout.nanos
            == 0);
    }
}

/// A server that takes over from another one knows its role and what it said of its log at once, and
/// keeps its own ban and weight.
pub proof fn roles_move_along(
    from: Target,
    to: Target,
    from_after: Target,
    to_after: Target,
    now: Instant,
)
    requires
        target_moved(from, to, from_after, to_after, now),
    ensures
        to_after.role == from.role,
        to_after.pool.lsn_stats == from.pool.lsn_stats,
        to_after.ban == to.ban && to_after.current_weight == to.current_weight,
        from_after.role == from.role && from_after.ban == from.ban,
        !from_after.pool.inner.online && from_after.pool.inner.moved == Some(to.pool.id),
        to_after.pool.config == to.pool.config && to_after.pool.addr == to.pool.addr,
{
}

/// A load balancer is online, and knows all roles, only if that is so for each of its servers; the
/// settings that clients are told come from the first server that is not banned, and from nobody only
/// if all are. `i` is any server.
pub proof fn every_server_counts(
    targets: Seq<Target>,
    r: Result<usize, Error>,
    list: Result<Vec<usize>, Error>,
    candidates: Seq<usize>,
    i: int,
)
    requires
        0 <= i < targets.len(),
        speaks_for_all(targets, r),
        unless_empty(list, candidates),
    ensures
        !targets[i].pool.inner.online ==> !all_online(targets),
        targets[i].role == Role::Auto ==> !all_detected(targets),
        (forall|k: int| 0 <= k < targets.len() ==> (#[trigger] targets[k]).pool.inner.online)
            ==> all_online(targets),
        (forall|k: int|
            0 <= k < targets.len() ==> (#[trigger] targets[k]).role == Role::Primary
                || targets[k].role == Role::Replica) ==> all_detected(targets),
        targets[i].ban.entry is None ==> r is Ok && r->Ok_0 <= i,
        r matches Ok(k) ==> k < targets.len() && targets[k as int].ban.entry is None,
        r matches Err(e) ==> e == Error::AllReplicasDown,
        list is Ok <==> candidates.len() > 0,
        list matches Ok(v) ==> v@ == candidates,
        list matches Err(e) ==> e == Error::AllReplicasDown,
{
    let _ = targets[i];
}

} // verus!
