//! In which order servers are tried, and what happens to those that fail.

use crate::config::database::{LoadBalancingStrategy, Role};
use crate::pool::ban::Ban;
#[allow(unused_imports)]
use crate::pool::ban::BanEntry;
use crate::pool::error::Error;
#[allow(unused_imports)]
use crate::pool::inner::{contents, Inner};
use crate::pool::lb::{rotate_left, shuffle, LoadBalancer};
#[allow(unused_imports)]
use crate::pool::lb::{
    by_load, closed_by_ban, exchanged, find_primary, inserted, last_primary, leader, lemma_inserted,
    loads, picks, redetected, rotated, running_of, same_but_weights, serving, valid_candidates,
    weighted_round, weights_of, Target,
};
#[allow(unused_imports)]
use crate::pool::pool::{can_take_over, Pool};
use crate::pool::pool::ReplicaLag;
#[allow(unused_imports)]
use crate::pool::weighted::{
    after_rounds, chosen, last_max, lemma_last_max, lemma_rounds, machine_chosen, machine_raised,
    machine_round, machine_sum, raised, rounds_are_exact, rounds_are_proportional,
    running_weights_stay_near, sum, wrapped, zeros,
};
use crate::server::connection::Server;
use crate::time::Instant;
use vstd::prelude::*;

verus! {

/// `ordered` and `after` are what the strategy makes of the candidates and of the load balancer.
pub open spec fn ordered_by(
    before: LoadBalancer,
    after: LoadBalancer,
    candidates: Seq<usize>,
    ordered: Seq<usize>,
) -> bool {
    match before.lb_strategy {
        LoadBalancingStrategy::Random => after == before && ordered.to_multiset()
            == candidates.to_multiset(),
        LoadBalancingStrategy::RoundRobin => {
            &&& after == (LoadBalancer {
                round_robin: if before.round_robin < usize::MAX {
                    (before.round_robin + 1) as usize
                } else {
                    0
                },
                ..before
            })
            &&& ordered == rotated(candidates, before.round_robin as int % candidates.len() as int)
        },
        LoadBalancingStrategy::LeastActiveConnections => after == before && ordered == by_load(
            candidates,
            loads(before.targets@),
        ),
        LoadBalancingStrategy::WeightedRoundRobin => {
            &&& after == (LoadBalancer { targets: after.targets, ..before })
            &&& weighted_round(before.targets@, after.targets@, candidates, ordered)
        },
    }
}

impl LoadBalancer {
    /// Put the candidates into the order in which they are tried.
    pub fn order_candidates(&mut self, candidates: &mut Vec<usize>)
        requires
            old(candidates)@.len() > 0,
            valid_candidates(old(self).targets@, old(candidates)@),
        ensures
            ordered_by(*old(self), *final(self), old(candidates)@, final(candidates)@),
    {
        match self.lb_strategy {
            LoadBalancingStrategy::Random => {
                shuffle(candidates);
            },
            LoadBalancingStrategy::RoundRobin => {
                let first: usize = self.round_robin % candidates.len();
                self.round_robin = self.round_robin.wrapping_add(1);
                rotate_left(candidates, first);
            },
            LoadBalancingStrategy::LeastActiveConnections => {
                self.order_by_load(candidates);
            },
            LoadBalancingStrategy::WeightedRoundRobin => {
                self.order_by_weight(candidates);
            },
        }
    }

    fn order_by_load(&self, candidates: &mut Vec<usize>)
        requires
            valid_candidates(self.targets@, old(candidates)@),
        ensures
            final(candidates)@ == by_load(old(candidates)@, loads(self.targets@)),
    {
        let mut sorted: Vec<usize> = Vec::new();
        let ghost load = loads(self.targets@);
        let ghost all = candidates@;
        assert(all.take(0) == Seq::<usize>::empty());
        for i in 0..candidates.len()
            invariant
                all == candidates@,
                all == old(candidates)@,
                load == loads(self.targets@),
                valid_candidates(self.targets@, all),
                sorted@ == by_load(all.take(i as int), load),
                forall|k: int| 0 <= k < sorted@.len() ==> (#[trigger] sorted@[k])
                    < self.targets@.len(),
        {
            let x: usize = candidates[i];
            let mine: usize = self.targets[x].pool.checked_out_count();
            let mut at: usize = sorted.len();
            while at > 0 && self.targets[sorted[at - 1]].pool.checked_out_count() > mine
                invariant
                    at <= sorted@.len(),
                    x < self.targets@.len(),
                    mine == load[x as int],
                    load == loads(self.targets@),
                    forall|k: int| 0 <= k < sorted@.len() ==> (#[trigger] sorted@[k])
                        < self.targets@.len(),
                    forall|j: int|
                        at <= j < sorted@.len() ==> load[#[trigger] sorted@[j] as int] > mine,
                decreases at,
            {
                at = at - 1;
            }
            proof {
                assert(all.take(i + 1).drop_last() == all.take(i as int));
                assert(all.take(i + 1).last() == x);
                if at > 0 {
                    assert(load[sorted@[at - 1] as int] <= mine);
                }
                lemma_inserted(sorted@, x, load, at as int);
            }
            sorted.insert(at, x);
        }
        assert(all.take(all.len() as int) == all);
        *candidates = sorted;
    }

    fn order_by_weight(&mut self, candidates: &mut Vec<usize>)
        requires
            old(candidates)@.len() > 0,
            valid_candidates(old(self).targets@, old(candidates)@),
        ensures
            *final(self) == (LoadBalancer { targets: final(self).targets, ..*old(self) }),
            weighted_round(
                old(self).targets@,
                final(self).targets@,
                old(candidates)@,
                final(candidates)@,
            ),
    {
        let ghost all = candidates@;
        let ghost before = self.targets@;
        let ghost weights = weights_of(before, all);
        let ghost running = running_of(before, all);
        let mut total_weight: i64 = 0;
        assert(weights.take(0) == Seq::<int>::empty());
        for i in 0..candidates.len()
            invariant
                all == candidates@,
                before == self.targets@,
                valid_candidates(before, all),
                weights == weights_of(before, all),
                total_weight == machine_sum(weights.take(i as int)),
        {
            proof {
                assert(weights.take(i + 1).drop_last() == weights.take(i as int));
                assert(weights.take(i + 1).last() == weights[i as int]);
            }
            let weight: i64 = self.targets[candidates[i]].pool.config.lb_weight as i64;
            total_weight = total_weight.wrapping_add(weight);
        }
        assert(weights.take(all.len() as int) == weights);
        if total_weight > 0 {
            self.raise_weights(candidates);
            let ghost up = machine_raised(running, weights);
            assert(running_of(self.targets@, all) == up);
            let max_idx = self.heaviest(candidates);
            proof {
                lemma_last_max(up);
            }
            let ghost grown = self.targets@;
            let t: usize = candidates[max_idx];
            assert(grown[t as int].current_weight == up[max_idx as int]);
            let weight: i64 = self.targets[t].current_weight.wrapping_sub(total_weight);
            self.targets[t].current_weight = weight;
            proof {
                let after = self.targets@;
                assert forall|k: int| 0 <= k < all.len() implies #[trigger] running_of(
                    after,
                    all,
                )[k] == machine_round(running, weights)[k] by {
                    if k != max_idx {
                        if k < max_idx {
                            assert(all[k] != all[max_idx as int]);
                        } else {
                            assert(all[max_idx as int] != all[k]);
                        }
                        assert(after[all[k] as int] == grown[all[k] as int]);
                        assert(running_of(grown, all)[k] == up[k]);
                    }
                }
                assert(running_of(after, all) == machine_round(running, weights));
            }
            let front: usize = candidates[0];
            candidates.set(0, t);
            candidates.set(max_idx, front);
            assert(candidates@ == exchanged(all, 0, max_idx as int));
        }
    }

    /// Let the running weights of all candidates grow.
    fn raise_weights(&mut self, candidates: &Vec<usize>)
        requires
            valid_candidates(old(self).targets@, candidates@),
        ensures
            *final(self) == (LoadBalancer { targets: final(self).targets, ..*old(self) }),
            same_but_weights(old(self).targets@, final(self).targets@),
            running_of(final(self).targets@, candidates@) == machine_raised(
                running_of(old(self).targets@, candidates@),
                weights_of(old(self).targets@, candidates@),
            ),
            forall|i: int|
                0 <= i < old(self).targets@.len() && !candidates@.contains(i as usize)
                    ==> #[trigger] final(self).targets@[i] == old(self).targets@[i],
    {
        let ghost all = candidates@;
        let ghost before = self.targets@;
        for i in 0..candidates.len()
            invariant
                all == candidates@,
                before == old(self).targets@,
                valid_candidates(before, all),
                *self == (LoadBalancer { targets: self.targets, ..*old(self) }),
                same_but_weights(before, self.targets@),
                forall|k: int|
                    0 <= k < i ==> self.targets@[#[trigger] all[k] as int].current_weight
                        == wrapped(
                        before[all[k] as int].current_weight
                            + before[all[k] as int].pool.config.lb_weight,
                    ),
                forall|k: int|
                    i <= k < all.len() ==> self.targets@[#[trigger] all[k] as int]
                        == before[all[k] as int],
                forall|j: int|
                    0 <= j < before.len() && !all.contains(j as usize)
                        ==> #[trigger] self.targets@[j] == before[j],
        {
            let t: usize = candidates[i];
            let ghost held = self.targets@;
            assert(all[i as int] == t);
            assert(all.contains(t));
            assert(held[t as int] == before[t as int]);
            let weight: i64 = self.targets[t].pool.config.lb_weight as i64;
            let grown: i64 = self.targets[t].current_weight.wrapping_add(weight);
            self.targets[t].current_weight = grown;
            proof {
                assert forall|k: int| 0 <= k < i + 1 implies self.targets@[
                    #[trigger] all[k] as int].current_weight == wrapped(
                    before[all[k] as int].current_weight
                        + before[all[k] as int].pool.config.lb_weight,
                ) by {
                    if k < i {
                        assert(all[k] != all[i as int]);
                        assert(self.targets@[all[k] as int] == held[all[k] as int]);
                    }
                }
                assert forall|k: int| i + 1 <= k < all.len() implies self.targets@[
                    #[trigger] all[k] as int] == before[all[k] as int] by {
                    assert(all[i as int] != all[k]);
                    assert(self.targets@[all[k] as int] == held[all[k] as int]);
                }
            }
        }
        assert(running_of(self.targets@, all) == machine_raised(
            running_of(before, all),
            weights_of(before, all),
        ));
    }

    /// The candidate with the largest running weight, the last one among equals.
    fn heaviest(&self, candidates: &Vec<usize>) -> (r: usize)
        requires
            candidates@.len() > 0,
            valid_candidates(self.targets@, candidates@),
        ensures
            r == last_max(running_of(self.targets@, candidates@)),
            r < candidates@.len(),
    {
        let ghost up = running_of(self.targets@, candidates@);
        let mut best: usize = 0;
        assert(up.take(1).len() == 1);
        for i in 1..candidates.len()
            invariant
                up == running_of(self.targets@, candidates@),
                valid_candidates(self.targets@, candidates@),
                best < i <= candidates@.len(),
                best == last_max(up.take(i as int)),
        {
            proof {
                assert(up.take(i + 1).drop_last() == up.take(i as int));
                assert(up.take(i + 1).last() == up[i as int]);
                assert(up.take(i + 1)[best as int] == up[best as int]);
            }
            if self.targets[candidates[i]].current_weight
                >= self.targets[candidates[best]].current_weight {
                best = i;
            }
        }
        assert(up.take(candidates@.len() as int) == up);
        best
    }
}

/// Candidates in the order in which they are tried, and how far that has got.
#[derive(Debug)]
pub struct CandidateRun {
    /// The candidates.
    pub candidates: Vec<usize>,
    /// The first one that has not been tried.
    pub position: usize,
}

/// The first candidate from this one on that may be used.
pub open spec fn next_usable(targets: Seq<Target>, candidates: Seq<usize>, from: int) -> Option<int>
    decreases candidates.len() - from,
{
    if from < 0 || from >= candidates.len() {
        None
    } else if !targets[candidates[from] as int].ban.active() {
        Some(from)
    } else {
        next_usable(targets, candidates, from + 1)
    }
}

/// What is left of a ban when it is lifted: an administrator's ban stays.
pub open spec fn lifted(ban: Ban) -> Ban {
    if ban.manual() {
        ban
    } else {
        Ban { entry: None }
    }
}

/// The servers once the bans of some of them were lifted.
pub open spec fn bans_lifted(before: Seq<Target>, after: Seq<Target>, which: Seq<usize>) -> bool {
    &&& after.len() == before.len()
    &&& forall|i: int|
        0 <= i < before.len() ==> #[trigger] after[i] == (Target {
            ban: if which.contains(i as usize) {
                lifted(before[i].ban)
            } else {
                before[i].ban
            },
            ..before[i]
        })
}

/// The servers once one of them was banned.
pub open spec fn one_banned(
    before: Seq<Target>,
    after: Seq<Target>,
    which: int,
    error: Error,
    now: Instant,
) -> bool {
    &&& after.len() == before.len()
    &&& forall|i: int| 0 <= i < before.len() && i != which ==> #[trigger] after[i] == before[i]
    &&& banned_once(before[which], after[which], error, now)
}

/// The server once it was banned for as long as its pool says; a ban in force stays.
pub open spec fn banned_once(before: Target, after: Target, error: Error, now: Instant) -> bool {
    if before.ban.active() {
        after == before
    } else {
        &&& after == (Target {
            ban: Ban {
                entry: Some(
                    BanEntry {
                        error,
                        created_at: now,
                        ban_timeout: before.pool.config.ban_timeout,
                    },
                ),
            },
            pool: Pool {
                inner: Inner {
                    idle_connections: after.pool.inner.idle_connections,
                    ..before.pool.inner
                },
                ..before.pool
            },
            ..before
        })
        &&& after.pool.inner.idle_connections@.len() == 0
    }
}

/// What comes of a candidate, one of so many, that did not give a connection.
pub open spec fn after_failure(
    before: LoadBalancer,
    after: LoadBalancer,
    candidates: nat,
    target: int,
    error: Error,
    now: Instant,
    closed: Seq<Server>,
) -> bool {
    if error != Error::Offline && candidates > 1 {
        &&& after == (LoadBalancer { targets: after.targets, ..before })
        &&& one_banned(before.targets@, after.targets@, target, error, now)
        &&& closed == closed_by_ban(before.targets@[target])
    } else {
        after == before && closed.len() == 0
    }
}

impl LoadBalancer {
    /// Ban a server for as long as its pool says.
    fn ban_target(&mut self, target: usize, error: Error, now: Instant) -> (r: Vec<Box<Server>>)
        requires
            target < old(self).targets@.len(),
        ensures
            *final(self) == (LoadBalancer { targets: final(self).targets, ..*old(self) }),
            one_banned(old(self).targets@, final(self).targets@, target as int, error, now),
            contents(r@) == closed_by_ban(old(self).targets@[target as int]),
    {
        let timeout = self.targets[target].pool.config.ban_timeout;
        self.targets[target].ban(error, timeout, now)
    }

    /// Put the candidates into order and begin to try them.
    pub fn try_candidates(&mut self, candidates: Vec<usize>) -> (r: CandidateRun)
        requires
            candidates@.len() > 0,
            valid_candidates(old(self).targets@, candidates@),
        ensures
            ordered_by(*old(self), *final(self), candidates@, r.candidates@),
            r.position == 0,
    {
        let mut candidates = candidates;
        self.order_candidates(&mut candidates);
        CandidateRun { candidates, position: 0 }
    }

    /// The next candidate to try: banned ones are passed over.
    pub fn next_candidate(&self, run: &mut CandidateRun) -> (r: Option<usize>)
        requires
            valid_candidates(self.targets@, old(run).candidates@),
            old(run).position <= old(run).candidates@.len(),
        ensures
            final(run).candidates == old(run).candidates,
            final(run).position <= final(run).candidates@.len(),
            match next_usable(self.targets@, old(run).candidates@, old(run).position as int) {
                Some(k) => r == Some(old(run).candidates@[k]) && final(run).position == k + 1 && k
                    < old(run).candidates@.len(),
                None => r is None && final(run).position == old(run).candidates@.len(),
            },
            r matches Some(t) ==> t < self.targets@.len() && !self.targets@[t as int].ban.active(),
    {
        while run.position < run.candidates.len()
            invariant
                run.position <= run.candidates@.len(),
                run.candidates == old(run).candidates,
                valid_candidates(self.targets@, run.candidates@),
                next_usable(self.targets@, run.candidates@, run.position as int) == next_usable(
                    self.targets@,
                    run.candidates@,
                    old(run).position as int,
                ),
            decreases run.candidates@.len() - run.position,
        {
            let target: usize = run.candidates[run.position];
            run.position = run.position + 1;
            if !self.targets[target].ban.banned() {
                return Some(target);
            }
        }
        None
    }

    /// A candidate did not give a connection. Unless its pool is offline, or it is the only
    /// candidate, it is banned; its idle connections come back to be closed.
    pub fn candidate_failed(
        &mut self,
        run: &CandidateRun,
        target: usize,
        error: Error,
        now: Instant,
    ) -> (r: Vec<Box<Server>>)
        requires
            target < old(self).targets@.len(),
        ensures
            *final(self) == (LoadBalancer { targets: final(self).targets, ..*old(self) }),
            after_failure(
                *old(self),
                *final(self),
                run.candidates@.len(),
                target as int,
                error,
                now,
                contents(r@),
            ),
    {
        let bannable = run.candidates.len() > 1;
        if error == Error::Offline || !bannable {
            return Vec::new();
        }
        self.ban_target(target, error, now)
    }

    /// No candidate gave a connection: the bans of all of them are lifted, but for those that an
    /// administrator put there.
    pub fn candidates_exhausted(&mut self, run: &CandidateRun) -> (r: Error)
        requires
            valid_candidates(old(self).targets@, run.candidates@),
        ensures
            r == Error::AllReplicasDown,
            *final(self) == (LoadBalancer { targets: final(self).targets, ..*old(self) }),
            bans_lifted(old(self).targets@, final(self).targets@, run.candidates@),
    {
        let ghost before = self.targets@;
        let ghost all = run.candidates@;
        assert(self.targets.len() == before.len());
        for k in 0..run.candidates.len()
            invariant
                before.len() <= usize::MAX,
                before == old(self).targets@,
                all == run.candidates@,
                valid_candidates(before, all),
                *self == (LoadBalancer { targets: self.targets, ..*old(self) }),
                bans_lifted(before, self.targets@, all.take(k as int)),
        {
            let t: usize = run.candidates[k];
            let ghost held = self.targets@;
            self.targets[t].ban.unban(true);
            proof {
                let after = self.targets@;
                let some = all.take(k as int);
                let more = all.take(k + 1);
                assert(more == some.push(t));
                assert forall|i: int| 0 <= i < before.len() implies #[trigger] after[i] == (
                Target {
                    ban: if more.contains(i as usize) {
                        lifted(before[i].ban)
                    } else {
                        before[i].ban
                    },
                    ..before[i]
                }) by {
                    assert(held[i] == (Target { ban: held[i].ban, ..before[i] }));
                    if i == t {
                        assert(more[k as int] == i as usize);
                        assert(more.contains(i as usize));
                        assert(lifted(lifted(before[i].ban)) == lifted(before[i].ban));
                    } else {
                        assert(after[i] == held[i]);
                        if some.contains(i as usize) {
                            let j = choose|j: int| 0 <= j < some.len() && some[j] == i as usize;
                            assert(more[j] == i as usize);
                        }
                        if more.contains(i as usize) {
                            let j = choose|j: int| 0 <= j < more.len() && more[j] == i as usize;
                            assert(some[j] == i as usize);
                        }
                    }
                }
            }
        }
        assert(all.take(all.len() as int) == all);
        Error::AllReplicasDown
    }
}

/// A read that prefers the primary.
#[derive(Clone, Copy, Debug, PartialEq, Eq, Structural)]
pub struct PreferredRead {
    /// The primary, if there is one.
    pub primary: Option<usize>,
    /// There was no primary, or it was banned before the read began.
    pub primary_was_banned: bool,
}

/// What to do next for a read that prefers the primary.
#[derive(Debug)]
pub enum PreferredAction {
    /// Try the primary.
    TryPrimary(usize),
    /// Try the replicas.
    TryReplicas(CandidateRun),
    /// Give up.
    GiveUp(Error),
}

/// The replicas that take part in regular traffic.
pub open spec fn replica_picks(targets: Seq<Target>) -> Seq<usize> {
    picks(targets, |t: Target| serving(t) && t.role == Role::Replica)
}

/// What a read that prefers the primary does once the primary is out of the question.
pub open spec fn falls_back(
    before: LoadBalancer,
    after: LoadBalancer,
    primary: Option<usize>,
    action: PreferredAction,
) -> bool {
    let replicas = replica_picks(before.targets@);
    if replicas.len() == 0 {
        after == before && action == PreferredAction::GiveUp(
            if primary is Some {
                Error::PreferredReadUnavailable
            } else {
                Error::AllReplicasDown
            },
        )
    } else {
        action matches PreferredAction::TryReplicas(run) && run.position == 0 && ordered_by(
            before,
            after,
            replicas,
            run.candidates@,
        )
    }
}

/// What comes of the primary not giving a connection to a read that prefers it.
pub open spec fn after_preferred_failure(
    before: LoadBalancer,
    after: LoadBalancer,
    plan: PreferredRead,
    error: Error,
    now: Instant,
    action: PreferredAction,
    closed: Seq<Server>,
) -> bool {
    let i = plan.primary->Some_0 as int;
    let replicas = exists|k: int|
        0 <= k < before.targets@.len() && (#[trigger] before.targets@[k]).role != Role::Primary;
    if error == Error::Offline {
        falls_back(before, after, plan.primary, action) && closed.len() == 0
    } else if !replicas {
        action == PreferredAction::GiveUp(error) && after == before && closed.len() == 0
    } else {
        &&& closed == closed_by_ban(before.targets@[i])
        &&& exists|middle: LoadBalancer| #[trigger]
            one_banned(before.targets@, middle.targets@, i, error, now) && middle == (
            LoadBalancer { targets: middle.targets, ..before }) && falls_back(
                middle,
                after,
                plan.primary,
                action,
            )
    }
}

/// What comes of neither the primary nor the replicas giving a connection.
pub open spec fn after_exhaustion(
    before: LoadBalancer,
    after: LoadBalancer,
    plan: PreferredRead,
) -> bool {
    &&& plan.primary_was_banned || plan.primary is None ==> after == before
    &&& !plan.primary_was_banned ==> (plan.primary matches Some(i) ==> bans_lifted(
        before.targets@,
        after.targets@,
        seq![i],
    ))
}

/// A read that prefers the primary has begun: the primary is tried unless it is banned, else the
/// replicas are.
pub open spec fn preferred_read_begun(
    before: LoadBalancer,
    after: LoadBalancer,
    plan: PreferredRead,
    action: PreferredAction,
) -> bool {
    let primary = find_primary(before.targets@, before.primary_idx);
    let looked = LoadBalancer { primary_idx: primary, ..before };
    let banned = match primary {
        Some(i) => before.targets@[i as int].ban.active(),
        None => true,
    };
    &&& plan == (PreferredRead { primary, primary_was_banned: banned })
    &&& if !banned {
        primary matches Some(i) && action == PreferredAction::TryPrimary(i) && after == looked
    } else {
        falls_back(looked, after, primary, action)
    }
}

impl LoadBalancer {
    /// Begin a read that prefers the primary: the primary is tried unless it is banned, else the
    /// replicas are.
    pub fn preferred_read(&mut self) -> (r: (PreferredRead, PreferredAction))
        ensures
            preferred_read_begun(*old(self), *final(self), r.0, r.1),
    {
        let primary = self.primary_target();
        let primary_was_banned = match primary {
            Some(idx) => self.targets[idx].ban.banned(),
            None => true,
        };
        let plan = PreferredRead { primary, primary_was_banned };
        if !primary_was_banned {
            match primary {
                Some(idx) => {
                    return (plan, PreferredAction::TryPrimary(idx));
                },
                None => {},
            }
        }
        let action = self.prefer_replicas(&plan);
        (plan, action)
    }

    /// Try the replicas, if there are any.
    fn prefer_replicas(&mut self, plan: &PreferredRead) -> (r: PreferredAction)
        ensures
            falls_back(*old(self), *final(self), plan.primary, r),
    {
        let candidates = self.replica_candidates();
        if candidates.is_empty() {
            return if plan.primary.is_some() {
                PreferredAction::GiveUp(Error::PreferredReadUnavailable)
            } else {
                PreferredAction::GiveUp(Error::AllReplicasDown)
            };
        }
        proof {
            assert(self.targets.len() == self.targets@.len());
            crate::pool::lb::lemma_picks(
                self.targets@,
                |t: Target| serving(t) && t.role == Role::Replica,
            );
        }
        PreferredAction::TryReplicas(self.try_candidates(candidates))
    }

    /// The primary did not give a connection. If its pool is offline the replicas are tried; if
    /// anything else is wrong it is banned first, unless there is nothing to fall back on. The idle
    /// connections of a banned primary come back to be closed.
    pub fn preferred_failed(&mut self, plan: &PreferredRead, error: Error, now: Instant) -> (r: (
        PreferredAction,
        Vec<Box<Server>>,
    ))
        requires
            plan.primary matches Some(i) && i < old(self).targets@.len(),
        ensures
            after_preferred_failure(
                *old(self),
                *final(self),
                *plan,
                error,
                now,
                r.0,
                contents(r.1@),
            ),
    {
        match plan.primary {
            Some(primary) => {
                if error != Error::Offline {
                    if !self.has_replicas() {
                        return (PreferredAction::GiveUp(error), Vec::new());
                    }
                    assert(self.targets.len() == old(self).targets@.len());
                    let closed = self.ban_target(primary, error, now);
                    let ghost middle = *self;
                    assert(one_banned(
                        old(self).targets@,
                        middle.targets@,
                        primary as int,
                        error,
                        now,
                    ));
                    let action = self.prefer_replicas(plan);
                    return (action, closed);
                }
            },
            None => {},
        }
        let action = self.prefer_replicas(plan);
        (action, Vec::new())
    }

    /// Neither the primary nor the replicas gave a connection. The ban of the primary is lifted if
    /// it is this read's own doing; a ban from before stays, so that an outage is not masked.
    pub fn preferred_exhausted(&mut self, plan: &PreferredRead)
        requires
            plan.primary matches Some(i) ==> i < old(self).targets@.len(),
        ensures
            *final(self) == (LoadBalancer { targets: final(self).targets, ..*old(self) }),
            after_exhaustion(*old(self), *final(self), *plan),
    {
        if !plan.primary_was_banned {
            match plan.primary {
                Some(primary) => {
                    assert(self.targets.len() == old(self).targets@.len());
                    self.targets[primary].ban.unban(true);
                    proof {
                        let one = seq![primary];
                        assert(one[0] == primary);
                        assert(one.contains(primary));
                        assert forall|i: int|
                            0 <= i < old(self).targets@.len() && i != primary implies !#[trigger] one.contains(
                            i as usize,
                        ) by {}
                    }
                },
                None => {},
            }
        }
    }
}

proof fn lemma_exchanged_multiset(s: Seq<usize>, a: int, b: int)
    requires
        0 <= a < s.len(),
        0 <= b < s.len(),
    ensures
        exchanged(s, a, b).to_multiset() == s.to_multiset(),
{
    broadcast use vstd::seq_lib::group_to_multiset_ensures;

    let first = s.update(a, s[b]);
    assert(first.to_multiset() == s.to_multiset().insert(s[b]).remove(s[a]));
    let second = first.update(b, s[a]);
    assert(first[b] == s[b]);
    assert(second.to_multiset() == first.to_multiset().insert(s[a]).remove(first[b]));
    assert(s.to_multiset().count(s[a]) > 0) by {
        assert(s.contains(s[a]));
    }
    assert(second.to_multiset() =~= s.to_multiset());
}

/// Whatever the strategy, putting candidates into order loses none and adds none.
pub proof fn ordering_keeps_candidates(
    before: LoadBalancer,
    after: LoadBalancer,
    candidates: Seq<usize>,
    ordered: Seq<usize>,
)
    requires
        candidates.len() > 0,
        ordered_by(before, after, candidates, ordered),
    ensures
        ordered.to_multiset() == candidates.to_multiset(),
{
    match before.lb_strategy {
        LoadBalancingStrategy::Random => {},
        LoadBalancingStrategy::RoundRobin => {
            let first = before.round_robin as int % candidates.len() as int;
            vstd::seq_lib::lemma_multiset_commutative(candidates.skip(first), candidates.take(first));
            vstd::seq_lib::lemma_multiset_commutative(candidates.take(first), candidates.skip(first));
            assert(candidates.take(first) + candidates.skip(first) == candidates);
            assert(ordered.to_multiset() =~= candidates.to_multiset());
        },
        LoadBalancingStrategy::LeastActiveConnections => {
            crate::pool::lb::by_load_sorts(candidates, loads(before.targets@));
        },
        LoadBalancingStrategy::WeightedRoundRobin => {
            let weights = weights_of(before.targets@, candidates);
            let running = running_of(before.targets@, candidates);
            if machine_sum(weights) > 0 {
                lemma_last_max(machine_raised(running, weights));
                lemma_exchanged_multiset(candidates, 0, machine_chosen(running, weights));
            }
        },
    }
}

/// How many of the orders begin with this server.
pub open spec fn first_places(orders: Seq<Seq<usize>>, server: usize) -> int
    decreases orders.len(),
{
    if orders.len() == 0 {
        0
    } else {
        first_places(orders.drop_last(), server) + if orders.last()[0] == server {
            1int
        } else {
            0
        }
    }
}

/// Candidates with these weights and running weights were put into order by weight.
pub open spec fn weighted_order(
    before: LoadBalancer,
    after: LoadBalancer,
    candidates: Seq<usize>,
    weights: Seq<int>,
    running: Seq<int>,
    order: Seq<usize>,
) -> bool {
    &&& ordered_by(before, after, candidates, order)
    &&& before.lb_strategy == LoadBalancingStrategy::WeightedRoundRobin
    &&& valid_candidates(before.targets@, candidates)
    &&& weights_of(before.targets@, candidates) == weights
    &&& running_of(before.targets@, candidates) == running
}

/// Running weights of the candidates before the order of this number is made.
pub open spec fn running_before(after: Seq<LoadBalancer>, candidates: Seq<usize>, i: int) -> Seq<
    int,
> {
    if i == 0 {
        zeros(candidates.len())
    } else {
        running_of(after[i - 1].targets@, candidates)
    }
}

/// The same candidates were put into order by their weights again and again, at first with all
/// running weights at zero. `before[i]` and `after[i]` are the load balancer around each time; in
/// between anything can happen that leaves weights and running weights of the candidates alone.
pub open spec fn weighted_run(
    before: Seq<LoadBalancer>,
    after: Seq<LoadBalancer>,
    candidates: Seq<usize>,
    weights: Seq<int>,
    orders: Seq<Seq<usize>>,
) -> bool {
    &&& before.len() == orders.len()
    &&& after.len() == orders.len()
    &&& forall|i: int|
        0 <= i < orders.len() ==> weighted_order(
            #[trigger] before[i],
            after[i],
            candidates,
            weights,
            running_before(after, candidates, i),
            orders[i],
        )
}

/// The weights of these candidates are those of servers, and are not all zero; running weights made
/// from them stay within machine integers.
pub open spec fn weights_fit(candidates: Seq<usize>, weights: Seq<int>) -> bool {
    &&& weights.len() == candidates.len()
    &&& candidates.len() <= 0x1_0000_0000
    &&& forall|i: int| 0 <= i < weights.len() ==> 0 <= #[trigger] weights[i] <= 255
    &&& 0 < sum(weights)
    &&& weights.len() * sum(weights) <= 0x4000_0000_0000_0000
}

/// Putting candidates into order by their weights again and again is weighted round robin: after so
/// many times, the running weights are those after so many rounds, and every candidate came first as
/// often as the rounds chose it.
pub proof fn weighted_orders_follow_the_rounds(
    before: Seq<LoadBalancer>,
    after: Seq<LoadBalancer>,
    candidates: Seq<usize>,
    weights: Seq<int>,
    orders: Seq<Seq<usize>>,
    k: int,
)
    requires
        weighted_run(before, after, candidates, weights, orders),
        weights_fit(candidates, weights),
        0 <= k < candidates.len(),
    ensures
        orders.len() > 0 ==> running_of(after.last().targets@, candidates) == after_rounds(
            weights,
            orders.len(),
        ).0,
        first_places(orders, candidates[k]) == after_rounds(weights, orders.len()).1[k],
    decreases orders.len(),
{
    let n = orders.len() - 1;
    if n >= 0 {
        let (b, a, o) = (before.drop_last(), after.drop_last(), orders.drop_last());
        assert forall|i: int| 0 <= i < o.len() implies weighted_order(
            #[trigger] b[i],
            a[i],
            candidates,
            weights,
            running_before(a, candidates, i),
            o[i],
        ) by {
            assert(before[i] == b[i]);
        }
        weighted_orders_follow_the_rounds(b, a, candidates, weights, o, k);
        assert(valid_candidates(before[n].targets@, candidates));
        let running = running_of(before[n].targets@, candidates);
        assert(running == after_rounds(weights, n as nat).0);
        lemma_rounds(weights, n as nat);
        let total = sum(weights);
        let len = weights.len() as int;
        assert(total <= len * total) by (nonlinear_arith)
            requires
                len >= 1,
                total > 0,
        ;
        assert forall|i: int| 0 <= i < running.len() implies -0x4000_0000_0000_0000
            <= #[trigger] running[i] <= 0x4000_0000_0000_0000 by {
            running_weights_stay_near(weights, n as nat, i);
        }
        rounds_are_exact(running, weights);
        let m = chosen(running, weights);
        lemma_last_max(raised(running, weights));
        assert(orders[n] == exchanged(candidates, 0, m));
        assert(orders[n][0] == candidates[m]);
        if k != m {
            assert(candidates[k] != candidates[m]);
        }
    }
}

/// Over as many times as the weights add up to, every candidate comes first exactly as often as its
/// weight says.
pub proof fn weighted_orders_are_proportional(
    before: Seq<LoadBalancer>,
    after: Seq<LoadBalancer>,
    candidates: Seq<usize>,
    weights: Seq<int>,
    orders: Seq<Seq<usize>>,
    k: int,
)
    requires
        weighted_run(before, after, candidates, weights, orders),
        weights_fit(candidates, weights),
        orders.len() == sum(weights),
        0 <= k < candidates.len(),
    ensures
        first_places(orders, candidates[k]) == weights[k],
        running_of(after.last().targets@, candidates) == zeros(candidates.len()),
{
    weighted_orders_follow_the_rounds(before, after, candidates, weights, orders, k);
    rounds_are_proportional(weights);
}

/// Round robin begins each time with the next candidate: two rounds in a row over the same
/// candidates begin with neighbours, as long as the counter does not run over.
pub proof fn round_robin_moves_on(
    a: LoadBalancer,
    b: LoadBalancer,
    c: LoadBalancer,
    candidates: Seq<usize>,
    first: Seq<usize>,
    second: Seq<usize>,
)
    requires
        candidates.len() > 0,
        a.lb_strategy == LoadBalancingStrategy::RoundRobin,
        a.round_robin < usize::MAX,
        ordered_by(a, b, candidates, first),
        ordered_by(b, c, candidates, second),
    ensures
        first[0] == candidates[a.round_robin as int % candidates.len() as int],
        second[0] == candidates[(a.round_robin + 1) % (candidates.len() as int)],
        second == rotated(candidates, (a.round_robin + 1) % (candidates.len() as int)),
{
    let n = candidates.len() as int;
    let i = a.round_robin as int % n;
    let j = (a.round_robin + 1) % n;
    assert(0 <= i < n && 0 <= j < n);
    assert(first[0] == candidates.skip(i)[0]);
    assert(second[0] == candidates.skip(j)[0]);
}

proof fn lemma_leader(targets: Seq<Target>, now: Instant)
    ensures
        leader(targets, now) matches Some(p) ==> 0 <= p < targets.len(),
    decreases targets.len(),
{
    if targets.len() > 0 {
        lemma_leader(targets.drop_last(), now);
    }
}

pub(crate) proof fn lemma_only_primary(targets: Seq<Target>, p: int)
    requires
        0 <= p < targets.len(),
        forall|i: int|
            0 <= i < targets.len() ==> ((#[trigger] targets[i]).role == Role::Primary <==> i == p),
    ensures
        last_primary(targets) == Some(p as usize),
    decreases targets.len(),
{
    let end = targets.len() - 1;
    assert(targets[end].role == Role::Primary <==> end == p);
    if p < end {
        let short = targets.drop_last();
        assert forall|i: int| 0 <= i < short.len() implies ((#[trigger] short[i]).role
            == Role::Primary <==> i == p) by {
            assert(short[i] == targets[i]);
        }
        lemma_only_primary(short, p);
    }
}

/// A promotion leaves exactly one primary: the server that leads. Writes go there from then on.
pub proof fn promotion_leaves_one_primary(
    before: LoadBalancer,
    after: LoadBalancer,
    now: Instant,
    i: int,
)
    requires
        redetected(before, after, now, true),
        0 <= i < after.targets@.len() <= usize::MAX,
    ensures
        after.targets@[i].role == Role::Primary <==> leader(before.targets@, now) == Some(i),
        after.targets@[i].role != Role::Auto,
        leader(before.targets@, now) matches Some(p) && find_primary(
            after.targets@,
            after.primary_idx,
        ) == Some(p as usize),
{
    lemma_leader(before.targets@, now);
    let p = leader(before.targets@, now)->Some_0;
    lemma_only_primary(after.targets@, p);
}

} // verus!
