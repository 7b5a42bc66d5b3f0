//! A shard: the servers that hold one part of the data.

use crate::config::database::{LoadBalancingStrategy, ReadWriteSplit, Role};
#[allow(unused_imports)]
use crate::pool::ban::Ban;
use crate::pool::config::PoolConfig;
#[allow(unused_imports)]
use crate::pool::config::same_address;
use crate::pool::error::Error;
#[allow(unused_imports)]
use crate::pool::lb::{find_primary, last_primary, target_made, total_timeout, Target};
use crate::pool::lb::LoadBalancer;
#[allow(unused_imports)]
use crate::pool::inner::contents;
#[allow(unused_imports)]
use crate::pool::monitor::{all_idle_closed, taken_offline, target_moved};
#[allow(unused_imports)]
use crate::pool::pool::{can_take_over, pool_made};
use crate::pool::pool::Pool;
use crate::server::connection::Server;
use crate::time::{Duration, Instant};
#[allow(unused_imports)]
use crate::time::MAX_NANOS;
use vstd::prelude::*;

verus! {

/// Settings of a shard.
#[derive(Debug)]
pub struct ShardConfig<'a> {
    /// Number of the shard, from 0.
    pub number: usize,
    /// Its primary.
    pub primary: &'a Option<PoolConfig>,
    /// Its replicas.
    pub replicas: &'a Vec<PoolConfig>,
    /// Load balancing of reads.
    pub lb_strategy: LoadBalancingStrategy,
    /// Separation of reads and writes.
    pub rw_split: ReadWriteSplit,
    /// How often servers are asked where they are in their logs.
    pub lsn_check_interval: Duration,
    /// `LISTEN` and `NOTIFY` are served.
    pub pub_sub_enabled: bool,
}

/// A shard.
#[derive(Debug)]
pub struct Shard {
    /// Number of the shard, from 0.
    pub number: usize,
    /// Its servers.
    pub lb: LoadBalancer,
    /// How often servers are asked where they are in their logs.
    pub lsn_check_interval: Duration,
    /// `LISTEN` and `NOTIFY` are served.
    pub pub_sub_enabled: bool,
    /// The schema was loaded, or is not needed.
    pub schema_ready: bool,
}

/// How many pools a shard has.
pub open spec fn pools_in(primary: Option<PoolConfig>, replicas: Seq<PoolConfig>) -> nat {
    replicas.len() + if primary is Some {
        1nat
    } else {
        0
    }
}

/// Timeouts of all pools of a shard together.
pub open spec fn shard_timeout(primary: Option<PoolConfig>, replicas: Seq<PoolConfig>) -> int {
    total_timeout(replicas) + match primary {
        Some(p) => p.config.checkout_timeout.nanos as int,
        None => 0,
    }
}

/// The shard was made from these settings: its pools have consecutive identifiers, the primary has
/// the first one and comes last among the servers.
pub open spec fn shard_made(
    s: Shard,
    number: int,
    primary: Option<PoolConfig>,
    replicas: Seq<PoolConfig>,
    first_id: int,
) -> bool {
    &&& s.number == number
    &&& !s.schema_ready
    &&& s.lb.targets@.len() == pools_in(primary, replicas)
    &&& s.lb.round_robin == 0
    &&& s.lb.checkout_timeout.nanos == shard_timeout(primary, replicas)
    &&& match primary {
        Some(p) => {
            &&& s.lb.primary_idx == Some(replicas.len() as usize)
            &&& s.lb.targets@.last() == (Target {
                pool: s.lb.targets@.last().pool,
                ban: Ban { entry: None },
                role: Role::Primary,
                current_weight: 0,
            })
            &&& 0 <= first_id <= u64::MAX
            &&& pool_made(s.lb.targets@.last().pool, p, first_id as u64)
            &&& forall|i: int|
                0 <= i < replicas.len() ==> target_made(
                    #[trigger] s.lb.targets@[i],
                    replicas[i],
                    first_id + 1 + i,
                )
        },
        None => {
            &&& s.lb.primary_idx is None
            &&& forall|i: int|
                0 <= i < replicas.len() ==> target_made(
                    #[trigger] s.lb.targets@[i],
                    replicas[i],
                    first_id + i,
                )
        },
    }
}

/// The shard has a primary.
pub open spec fn shard_has_primary(s: Shard) -> bool {
    find_primary(s.lb.targets@, s.lb.primary_idx) is Some
}

/// The shard has a server that reads of replicas can go to.
pub open spec fn shard_has_replicas(s: Shard) -> bool {
    exists|i: int|
        0 <= i < s.lb.targets@.len() && (#[trigger] s.lb.targets@[i]).role != Role::Primary
}

/// All connections of one shard can be given to another one.
pub open spec fn shards_can_move(a: Shard, b: Shard, now: Instant) -> bool {
    &&& a.lb.targets@.len() == b.lb.targets@.len()
    &&& forall|i: int|
        0 <= i < a.lb.targets@.len() ==> {
            let (x, y) = (#[trigger] a.lb.targets@[i], b.lb.targets@[i]);
            x.pool.wf() && y.pool.wf() && x.pool.id != y.pool.id && can_take_over(
                y.pool.inner,
                x.pool.inner.size(),
                now,
            )
        }
}

/// All connections of one shard went to another one.
pub open spec fn shard_moved(
    a: Shard,
    b: Shard,
    a_after: Shard,
    b_after: Shard,
    now: Instant,
) -> bool {
    &&& a_after == (Shard {
        lb: LoadBalancer { targets: a_after.lb.targets, ..a.lb },
        ..a
    })
    &&& b_after == (Shard {
        lb: LoadBalancer {
            targets: b_after.lb.targets,
            primary_idx: last_primary(b_after.lb.targets@),
            ..b.lb
        },
        ..b
    })
    &&& a_after.lb.targets@.len() == a.lb.targets@.len()
    &&& b_after.lb.targets@.len() == b.lb.targets@.len()
    &&& forall|i: int|
        0 <= i < a.lb.targets@.len() ==> target_moved(
            a.lb.targets@[i],
            b.lb.targets@[i],
            a_after.lb.targets@[i],
            #[trigger] b_after.lb.targets@[i],
            now,
        )
}

/// All pools of the shard are offline.
pub open spec fn shard_offline(before: Shard, after: Shard) -> bool {
    &&& after == (Shard { lb: LoadBalancer { targets: after.lb.targets, ..before.lb }, ..before })
    &&& after.lb.targets@.len() == before.lb.targets@.len()
    &&& forall|i: int|
        0 <= i < before.lb.targets@.len() ==> taken_offline(
            before.lb.targets@[i],
            #[trigger] after.lb.targets@[i],
        )
}

/// The two shards are over the same servers.
pub open spec fn same_servers(a: Shard, b: Shard) -> bool {
    &&& a.lb.targets@.len() == b.lb.targets@.len()
    &&& forall|i: int|
        0 <= i < a.lb.targets@.len() ==> same_address(
            (#[trigger] a.lb.targets@[i]).pool.addr,
            b.lb.targets@[i].pool.addr,
        )
}

impl Shard {
    /// A shard over new pools, with identifiers from `first_id` on.
    pub fn new(config: ShardConfig, first_id: u64) -> (r: Self)
        requires
            first_id + pools_in(*config.primary, config.replicas@) <= u64::MAX,
            shard_timeout(*config.primary, config.replicas@) <= MAX_NANOS,
            config.replicas@.len() < usize::MAX,
        ensures
            shard_made(r, config.number as int, *config.primary, config.replicas@, first_id as int),
            r.lb.lb_strategy == config.lb_strategy,
            r.lb.rw_split == config.rw_split,
            r.lsn_check_interval == config.lsn_check_interval,
            r.pub_sub_enabled == config.pub_sub_enabled,
    {
        let mut next_id: u64 = first_id;
        let primary = match config.primary {
            Some(primary) => {
                next_id = next_id + 1;
                Some(Pool::new(primary, first_id))
            },
            None => None,
        };
        let lb = LoadBalancer::new(
            primary,
            config.replicas,
            config.lb_strategy,
            config.rw_split,
            next_id,
        );
        Shard {
            number: config.number,
            lb,
            lsn_check_interval: config.lsn_check_interval,
            pub_sub_enabled: config.pub_sub_enabled,
            schema_ready: false,
        }
    }

    /// Number of the shard.
    pub fn number(&self) -> (r: usize)
        ensures
            r == self.number,
    {
        self.number
    }

    /// The shard has a primary.
    pub fn has_primary(&self) -> (r: bool)
        ensures
            r == shard_has_primary(*self),
    {
        self.lb.peek_primary().is_some()
    }

    /// The shard has a server that reads of replicas can go to.
    pub fn has_replicas(&self) -> (r: bool)
        ensures
            r == shard_has_replicas(*self),
    {
        self.lb.has_replicas()
    }

    /// All pools are online.
    pub fn online(&self) -> (r: bool)
        ensures
            r <==> forall|i: int|
                0 <= i < self.lb.targets@.len() ==> (
                #[trigger] self.lb.targets@[i]).pool.inner.online,
    {
        self.lb.online()
    }

    /// The schema does not have to be loaded.
    pub fn schema_not_needed(&mut self)
        ensures
            *final(self) == (Shard { schema_ready: true, ..*old(self) }),
    {
        self.schema_ready = true;
    }

    /// The two shards are over the same servers.
    pub fn can_move_conns_to(&self, other: &Shard) -> (r: bool)
        ensures
            r == same_servers(*self, *other),
    {
        self.lb.can_move_conns_to(&other.lb)
    }

    /// Give all connections to another shard over the same servers.
    pub fn move_conns_to(&mut self, other: &mut Shard, now: Instant) -> (r: Result<(), Error>)
        requires
            shards_can_move(*old(self), *old(other), now),
        ensures
            r is Ok,
            shard_moved(*old(self), *old(other), *final(self), *final(other), now),
    {
        self.lb.move_conns_to(&mut other.lb, now)
    }

    /// Take all pools offline. Their idle connections come back to be closed.
    pub fn shutdown(&mut self) -> (r: Vec<Box<Server>>)
        ensures
            shard_offline(*old(self), *final(self)),
            contents(r@) == all_idle_closed(old(self).lb.targets@),
    {
        self.lb.shutdown()
    }
}

} // verus!
