//! Which server a read goes to, under each separation of reads and writes.

use pgdog::config::database::{LoadBalancingStrategy, ReadWriteSplit, Role};
use pgdog::net::BackendKeyData;
use pgdog::pool::config::{Address, Config, PoolConfig};
use pgdog::pool::error::Error;
use pgdog::pool::lb::LoadBalancer;
use pgdog::pool::pool::{Pool, ReplicaLag};
use pgdog::pool::routing::PreferredAction;
use pgdog::server::connection::Server;
use pgdog::time::{Duration, Instant};
use std::collections::HashSet;

fn start() -> Instant {
    Instant { nanos: 1_000_000_000_000 }
}

fn later(millis: u64) -> Instant {
    start().later(Duration::from_millis(millis))
}

fn pool_config(host: &str, port: u16) -> PoolConfig {
    PoolConfig {
        address: Address {
            host: host.to_string(),
            port,
            user: "pgdog".to_string(),
            passwords: vec!["pgdog".to_string()],
            database_name: "pgdog".to_string(),
            configured_role: Role::Replica,
            ..Default::default()
        },
        config: Config {
            max: 1,
            checkout_timeout: Duration::from_millis(1000),
            ban_timeout: Duration::from_millis(100),
            ..Config::default()
        },
    }
}

fn resharding_config(host: &str, port: u16) -> PoolConfig {
    let mut config = pool_config(host, port);
    config.address.configured_role = Address::default().configured_role;
    config.config.resharding_only = true;
    config
}

fn balancer(
    primary: bool,
    replicas: Vec<PoolConfig>,
    strategy: LoadBalancingStrategy,
    split: ReadWriteSplit,
) -> LoadBalancer {
    let primary = if primary { Some(Pool::new(&pool_config("127.0.0.1", 5432), 1)) } else { None };
    let mut lb = LoadBalancer::new(primary, &replicas, strategy, split, 2);
    let _ = lb.launch();
    lb
}

fn two_replicas() -> LoadBalancer {
    balancer(
        false,
        vec![pool_config("127.0.0.1", 5432), pool_config("localhost", 5432)],
        LoadBalancingStrategy::Random,
        ReadWriteSplit::IncludePrimary,
    )
}

fn primary_and_replicas(strategy: LoadBalancingStrategy, split: ReadWriteSplit) -> LoadBalancer {
    balancer(
        true,
        vec![pool_config("localhost", 5432), pool_config("127.0.0.1", 5432)],
        strategy,
        split,
    )
}

fn primary_and_replica(split: ReadWriteSplit) -> LoadBalancer {
    balancer(
        true,
        vec![pool_config("localhost", 5432)],
        LoadBalancingStrategy::Random,
        split,
    )
}

fn ban(lb: &mut LoadBalancer, idx: usize, millis: u64) {
    lb.targets[idx].ban.ban(Error::ServerError, Duration::from_millis(millis), start());
}

fn ban_replicas(lb: &mut LoadBalancer, millis: u64) {
    for i in 0..lb.targets.len() {
        if lb.targets[i].role() == Role::Replica {
            ban(lb, i, millis);
        }
    }
}

fn ban_primary(lb: &mut LoadBalancer, millis: u64) {
    if let Some(i) = lb.primary_target() {
        ban(lb, i, millis);
    }
}

fn ban_all(lb: &mut LoadBalancer, millis: u64) {
    for i in 0..lb.targets.len() {
        ban(lb, i, millis);
    }
}

/// Every pool that is tried gives a connection.
fn serve(lb: &mut LoadBalancer, candidates: Vec<usize>) -> Result<u64, Error> {
    let mut run = lb.try_candidates(candidates);
    match lb.next_candidate(&mut run) {
        Some(target) => Ok(lb.targets[target].pool.id()),
        None => Err(lb.candidates_exhausted(&run)),
    }
}

fn get(lb: &mut LoadBalancer) -> Result<u64, Error> {
    let candidates = lb.read_candidates()?;
    serve(lb, candidates)
}

fn any_read(lb: &mut LoadBalancer) -> Result<u64, Error> {
    let candidates = lb.any_read()?;
    serve(lb, candidates)
}

fn preferred_read(lb: &mut LoadBalancer) -> Result<u64, Error> {
    let (plan, action) = lb.preferred_read();
    match action {
        PreferredAction::TryPrimary(target) => Ok(lb.targets[target].pool.id()),
        PreferredAction::TryReplicas(mut run) => match lb.next_candidate(&mut run) {
            Some(target) => Ok(lb.targets[target].pool.id()),
            None => {
                let error = lb.candidates_exhausted(&run);
                lb.preferred_exhausted(&plan);
                Err(error)
            }
        },
        PreferredAction::GiveUp(error) => Err(error),
    }
}

fn used(lb: &mut LoadBalancer, times: usize) -> HashSet<u64> {
    (0..times).map(|_| get(lb).unwrap()).collect()
}

fn used_by_any_read(lb: &mut LoadBalancer, times: usize) -> HashSet<u64> {
    (0..times).map(|_| any_read(lb).unwrap()).collect()
}

fn primary_id(lb: &mut LoadBalancer) -> u64 {
    lb.primary().unwrap().id()
}

fn unbanned_ids(lb: &LoadBalancer) -> HashSet<u64> {
    lb.read_candidates()
        .unwrap()
        .into_iter()
        .filter(|i| !lb.targets[*i].ban.banned())
        .map(|i| lb.targets[i].pool.id())
        .collect()
}

fn threshold() -> ReplicaLag {
    ReplicaLag { duration: Duration::longest(), bytes: i64::MAX }
}

fn lag_threshold() -> ReplicaLag {
    ReplicaLag { duration: Duration::from_secs(1), bytes: 100 }
}

fn bad_lag() -> ReplicaLag {
    ReplicaLag { duration: Duration::from_secs(10), bytes: 1000 }
}

#[test]
fn test_replica_ban_recovery_after_timeout() {
    let mut lb = two_replicas();
    ban(&mut lb, 0, 50);
    assert!(lb.targets[0].ban.banned());
    assert!(lb.targets[0].ban.unban_if_expired(later(60), true));
    assert!(!lb.targets[0].ban.banned());
}

#[test]
fn test_replica_manual_unban() {
    let mut lb = two_replicas();
    ban(&mut lb, 0, 1000);
    assert!(lb.targets[0].ban.banned());
    lb.targets[0].ban.unban(false);
    assert!(!lb.targets[0].ban.banned());
}

#[test]
fn test_replica_ban_error_retrieval() {
    let mut lb = two_replicas();
    assert!(lb.targets[0].ban.error().is_none());
    ban(&mut lb, 0, 100);
    assert!(matches!(lb.targets[0].ban.error().unwrap(), Error::ServerError));
}

#[test]
fn test_multiple_replica_banning() {
    let mut lb = two_replicas();
    ban_all(&mut lb, 100);
    assert_eq!(lb.targets.iter().filter(|r| r.ban.banned()).count(), 2);
}

#[test]
fn test_replica_ban_idempotency() {
    let mut lb = two_replicas();
    let ban = &mut lb.targets[0].ban;
    assert!(ban.ban(Error::ServerError, Duration::from_millis(100), start()));
    assert!(ban.banned());
    assert!(!ban.ban(Error::ConnectTimeout, Duration::from_millis(200), start()));
    assert!(ban.banned());
    assert!(matches!(ban.error().unwrap(), Error::ServerError));
}

#[test]
fn test_pools_with_roles_and_bans() {
    let lb = two_replicas();
    let pools = lb.pools_with_roles_and_bans();
    assert_eq!(pools.len(), 2);
    for (role, _, _) in &pools {
        assert!(matches!(role, Role::Replica));
    }
    assert_eq!(pools[0].2, lb.pools()[0].id());
    assert_eq!(pools[1].2, lb.pools()[1].id());
}

#[test]
fn test_primary_pool_banning() {
    let mut lb = primary_and_replica(ReadWriteSplit::IncludePrimary);
    let primary = lb.primary_target().unwrap();
    ban(&mut lb, primary, 100);
    assert!(lb.targets[primary].ban.banned());
    let pools = lb.pools_with_roles_and_bans();
    assert_eq!(pools.len(), 2);
    assert!(pools.iter().any(|(role, _, _)| matches!(role, Role::Primary)));
}

#[test]
fn test_ban_timeout_not_expired() {
    let mut lb = two_replicas();
    ban(&mut lb, 0, 1000);
    assert!(lb.targets[0].ban.banned());
    assert!(!lb.targets[0].ban.unban_if_expired(start(), true));
    assert!(lb.targets[0].ban.banned());
}

#[test]
fn test_unban_if_expired_checks_pool_health() {
    let mut lb = two_replicas();
    ban(&mut lb, 0, 50);
    assert!(lb.targets[0].ban.banned());
    lb.targets[0].pool.health = false;
    let healthy = lb.targets[0].pool.healthy();
    assert!(!lb.targets[0].ban.unban_if_expired(later(60), healthy));
    assert!(lb.targets[0].ban.banned());
}

#[test]
fn test_replica_ban_clears_idle_connections() {
    let mut lb = two_replicas();
    let mut server = Server::default();
    server.id = BackendKeyData { pid: 7, secret: 11 };
    lb.targets[0].pool.inner.put(Box::new(server), start()).unwrap();
    assert!(lb.pools()[0].inner.idle() > 0);
    let closed = lb.targets[0].ban(Error::ServerError, Duration::from_millis(100), start());
    assert!(lb.targets[0].ban.banned());
    assert_eq!(lb.pools()[0].inner.idle(), 0);
    assert_eq!(closed.len(), 1);
    assert_eq!(*closed[0].id(), BackendKeyData { pid: 7, secret: 11 });
}

#[test]
fn test_monitor_automatic_ban_expiration() {
    let mut lb = two_replicas();
    ban(&mut lb, 0, 100);
    assert!(lb.targets[0].ban.banned());
    let _ = lb.ban_check(&threshold(), later(400));
    assert!(!lb.targets[0].ban.banned());
}

#[test]
fn test_read_write_split_exclude_primary() {
    let mut lb =
        primary_and_replicas(LoadBalancingStrategy::Random, ReadWriteSplit::ExcludePrimary);
    let ids = used(&mut lb, 100);
    assert_eq!(ids.len(), 2);
    assert!(!ids.contains(&primary_id(&mut lb)));
}

#[test]
fn test_read_write_split_include_primary() {
    let mut lb = primary_and_replica(ReadWriteSplit::IncludePrimary);
    let ids = used(&mut lb, 60);
    assert_eq!(ids.len(), 2);
    assert!(ids.contains(&primary_id(&mut lb)));
}

#[test]
fn test_read_write_split_exclude_primary_no_replicas() {
    let mut lb = balancer(
        true,
        vec![],
        LoadBalancingStrategy::RoundRobin,
        ReadWriteSplit::ExcludePrimary,
    );
    let ids = used(&mut lb, 2);
    assert_eq!(ids.len(), 1);
    assert!(ids.contains(&primary_id(&mut lb)));
}

#[test]
fn test_read_write_split_exclude_primary_no_primary() {
    let mut lb = balancer(
        false,
        vec![pool_config("localhost", 5432), pool_config("127.0.0.1", 5432)],
        LoadBalancingStrategy::Random,
        ReadWriteSplit::ExcludePrimary,
    );
    assert_eq!(used(&mut lb, 60).len(), 2);
}

#[test]
fn test_read_write_split_include_primary_no_primary() {
    let mut lb = balancer(
        false,
        vec![pool_config("localhost", 5432), pool_config("127.0.0.1", 5432)],
        LoadBalancingStrategy::Random,
        ReadWriteSplit::IncludePrimary,
    );
    assert_eq!(used(&mut lb, 60).len(), 2);
}

#[test]
fn test_read_write_split_with_banned_primary() {
    let mut lb = primary_and_replica(ReadWriteSplit::IncludePrimary);
    ban(&mut lb, 1, 1000);
    let ids = used(&mut lb, 10);
    assert_eq!(ids.len(), 1);
    assert!(!ids.contains(&lb.targets.last().unwrap().pool.id()));
}

#[test]
fn test_read_write_split_with_banned_replicas() {
    let mut lb = primary_and_replica(ReadWriteSplit::IncludePrimary);
    ban(&mut lb, 0, 1000);
    let ids = used(&mut lb, 10);
    assert_eq!(ids.len(), 1);
    assert!(ids.contains(&lb.targets.last().unwrap().pool.id()));
}

#[test]
fn test_read_write_split_exclude_primary_with_round_robin() {
    let mut lb =
        primary_and_replicas(LoadBalancingStrategy::RoundRobin, ReadWriteSplit::ExcludePrimary);
    let sequence: Vec<u64> = (0..8).map(|_| get(&mut lb).unwrap()).collect();
    let unique: HashSet<&u64> = sequence.iter().collect();
    assert_eq!(unique.len(), 2);
    assert!(!sequence.contains(&lb.targets.last().unwrap().pool.id()));
    for i in 1..sequence.len() {
        assert_ne!(sequence[i], sequence[i - 1]);
    }
}

#[test]
fn test_monitor_bans_unhealthy_target() {
    let mut lb = two_replicas();
    lb.targets[0].pool.health = false;
    let _ = lb.ban_check(&threshold(), start());
    assert!(lb.targets[0].ban.banned());
}

#[test]
fn test_monitor_clears_expired_bans() {
    let mut lb = two_replicas();
    ban(&mut lb, 0, 50);
    let _ = lb.ban_check(&threshold(), later(400));
    assert!(!lb.targets[0].ban.banned());
}

#[test]
fn test_monitor_does_not_ban_single_target() {
    let mut lb = balancer(
        false,
        vec![pool_config("127.0.0.1", 5432)],
        LoadBalancingStrategy::Random,
        ReadWriteSplit::IncludePrimary,
    );
    lb.targets[0].pool.health = false;
    let _ = lb.ban_check(&threshold(), start());
    assert!(!lb.targets[0].ban.banned());
}

#[test]
fn test_monitor_unbans_all_when_all_unhealthy() {
    let mut lb = two_replicas();
    lb.targets[0].pool.health = false;
    lb.targets[1].pool.health = false;
    let _ = lb.ban_check(&threshold(), start());
    assert!(!lb.targets[0].ban.banned());
    assert!(!lb.targets[1].ban.banned());
}

#[test]
fn test_monitor_does_not_ban_with_zero_ban_timeout() {
    let mut first = pool_config("127.0.0.1", 5432);
    let mut second = pool_config("localhost", 5432);
    first.config.ban_timeout = Duration::zero();
    second.config.ban_timeout = Duration::zero();
    let mut lb = balancer(
        false,
        vec![first, second],
        LoadBalancingStrategy::Random,
        ReadWriteSplit::IncludePrimary,
    );
    lb.targets[0].pool.health = false;
    let _ = lb.ban_check(&threshold(), start());
    assert!(!lb.targets[0].ban.banned());
}

#[test]
fn test_include_primary_if_replica_banned_no_bans() {
    let mut lb = primary_and_replica(ReadWriteSplit::IncludePrimaryIfReplicaBanned);
    let ids = used(&mut lb, 20);
    assert_eq!(ids.len(), 1);
    assert!(!ids.contains(&primary_id(&mut lb)));
}

#[test]
fn test_include_primary_if_replica_banned_with_ban() {
    let mut lb = primary_and_replica(ReadWriteSplit::IncludePrimaryIfReplicaBanned);
    ban(&mut lb, 0, 1000);
    let ids = used(&mut lb, 20);
    assert_eq!(ids.len(), 1);
    assert!(ids.contains(&primary_id(&mut lb)));
}

fn assert_read_candidates_after_ban(
    split: ReadWriteSplit,
    ban_all_replicas: bool,
    expect_primary_included: bool,
    expected_unbanned_count: usize,
) {
    let mut lb = primary_and_replicas(LoadBalancingStrategy::RoundRobin, split);
    if ban_all_replicas {
        ban_replicas(&mut lb, 1000);
    } else {
        ban(&mut lb, 0, 1000);
    }
    let ids = unbanned_ids(&lb);
    assert_eq!(ids.contains(&primary_id(&mut lb)), expect_primary_included);
    assert_eq!(ids.len(), expected_unbanned_count);
}

#[test]
fn test_prefer_primary_explicit_replica_reads_partial_ban_keep_reads_on_healthy_replicas() {
    assert_read_candidates_after_ban(ReadWriteSplit::PreferPrimary, false, false, 1);
}

#[test]
fn test_prefer_primary_explicit_replica_reads_all_replicas_banned_fall_back_to_primary() {
    assert_read_candidates_after_ban(ReadWriteSplit::PreferPrimary, true, true, 1);
}

#[test]
fn test_include_primary_if_replica_banned_partial_ban_keeps_reads_on_healthy_replicas() {
    let split = ReadWriteSplit::IncludePrimaryIfReplicaBanned;
    assert_read_candidates_after_ban(split, false, false, 1);
}

#[test]
fn test_include_primary_if_replica_banned_all_banned_falls_back_to_primary() {
    let split = ReadWriteSplit::IncludePrimaryIfReplicaBanned;
    assert_read_candidates_after_ban(split, true, true, 1);
}

#[test]
fn test_has_replicas_with_replicas() {
    assert!(two_replicas().has_replicas());
}

#[test]
fn test_has_replicas_with_primary_and_replicas() {
    assert!(primary_and_replica(ReadWriteSplit::IncludePrimary).has_replicas());
}

#[test]
fn test_has_replicas_primary_only() {
    let lb = balancer(
        true,
        vec![],
        LoadBalancingStrategy::Random,
        ReadWriteSplit::IncludePrimary,
    );
    assert!(!lb.has_replicas());
}

#[test]
fn test_has_replicas_empty() {
    let mut lb = balancer(
        false,
        vec![],
        LoadBalancingStrategy::Random,
        ReadWriteSplit::IncludePrimary,
    );
    assert!(!lb.has_replicas());
    assert!(lb.primary().is_none());
    assert!(lb.pools().is_empty());
}

#[test]
fn test_set_role() {
    let mut lb = two_replicas();
    assert_eq!(lb.targets[0].role(), Role::Replica);
    assert_eq!(lb.targets[1].role(), Role::Replica);
    assert!(!lb.targets[0].set_role(Role::Replica));
    assert_eq!(lb.targets[0].role(), Role::Replica);
    assert!(lb.targets[0].set_role(Role::Primary));
    assert_eq!(lb.targets[0].role(), Role::Primary);
    assert!(!lb.targets[0].set_role(Role::Primary));
    assert_eq!(lb.targets[0].role(), Role::Primary);
    assert!(lb.targets[0].set_role(Role::Replica));
    assert_eq!(lb.targets[0].role(), Role::Replica);
}

#[test]
fn test_monitor_unbans_all_when_second_target_becomes_unhealthy_after_first_banned() {
    let mut lb = two_replicas();
    lb.targets[0].pool.health = false;
    let _ = lb.ban_check(&threshold(), start());
    assert!(lb.targets[0].ban.banned());
    assert!(!lb.targets[1].ban.banned());
    lb.targets[1].pool.health = false;
    let _ = lb.ban_check(&threshold(), later(400));
    assert!(!lb.targets[0].ban.banned());
    assert!(!lb.targets[1].ban.banned());
}

#[test]
fn test_least_active_connections_prefers_pool_with_fewer_checked_out() {
    let mut lb = balancer(
        false,
        vec![pool_config("127.0.0.1", 5432), pool_config("localhost", 5432)],
        LoadBalancingStrategy::LeastActiveConnections,
        ReadWriteSplit::IncludePrimary,
    );
    let first = get(&mut lb).unwrap();
    let held = lb.targets.iter().position(|t| t.pool.id() == first).unwrap();
    lb.targets[held].pool.checked_out_count += 1;
    let second = get(&mut lb).unwrap();
    assert_ne!(first, second);
}

#[test]
fn test_exclude_primary_all_replicas_banned_returns_unavailable() {
    let mut lb =
        primary_and_replicas(LoadBalancingStrategy::Random, ReadWriteSplit::ExcludePrimary);
    ban_replicas(&mut lb, 1000);
    assert!(matches!(get(&mut lb), Err(Error::AllReplicasDown)));
}

#[test]
fn test_exclude_primary_primary_down_reads_go_to_replicas() {
    let mut lb =
        primary_and_replicas(LoadBalancingStrategy::Random, ReadWriteSplit::ExcludePrimary);
    ban_primary(&mut lb, 1000);
    let ids = unbanned_ids(&lb);
    assert!(!ids.contains(&primary_id(&mut lb)));
    assert_eq!(ids.len(), 2);
}

#[test]
fn test_exclude_primary_all_down_returns_unavailable() {
    let mut lb =
        primary_and_replicas(LoadBalancingStrategy::Random, ReadWriteSplit::ExcludePrimary);
    ban_all(&mut lb, 1000);
    assert!(matches!(get(&mut lb), Err(Error::AllReplicasDown)));
}

#[test]
fn test_include_primary_all_down_returns_unavailable() {
    let mut lb =
        primary_and_replicas(LoadBalancingStrategy::Random, ReadWriteSplit::IncludePrimary);
    ban_all(&mut lb, 1000);
    assert!(matches!(get(&mut lb), Err(Error::AllReplicasDown)));
}

#[test]
fn test_include_primary_if_replica_banned_primary_down_reads_go_to_replicas() {
    let mut lb = primary_and_replicas(
        LoadBalancingStrategy::RoundRobin,
        ReadWriteSplit::IncludePrimaryIfReplicaBanned,
    );
    ban_primary(&mut lb, 1000);
    let ids = unbanned_ids(&lb);
    assert!(!ids.contains(&primary_id(&mut lb)));
    assert_eq!(ids.len(), 2);
}

#[test]
fn test_include_primary_if_replica_banned_all_down_returns_unavailable() {
    let mut lb = primary_and_replicas(
        LoadBalancingStrategy::RoundRobin,
        ReadWriteSplit::IncludePrimaryIfReplicaBanned,
    );
    ban_all(&mut lb, 1000);
    assert!(matches!(get(&mut lb), Err(Error::AllReplicasDown)));
}

#[test]
fn test_prefer_primary_all_down_returns_unavailable() {
    let mut lb =
        primary_and_replicas(LoadBalancingStrategy::RoundRobin, ReadWriteSplit::PreferPrimary);
    ban_all(&mut lb, 1000);
    assert!(matches!(preferred_read(&mut lb), Err(Error::AllReplicasDown)));
}

#[test]
fn test_prefer_primary_explicit_replica_reads_primary_down_go_to_replicas() {
    let mut lb =
        primary_and_replicas(LoadBalancingStrategy::RoundRobin, ReadWriteSplit::PreferPrimary);
    ban_primary(&mut lb, 1000);
    let ids = unbanned_ids(&lb);
    assert!(!ids.contains(&primary_id(&mut lb)));
    assert_eq!(ids.len(), 2);
}

#[test]
fn test_include_primary_replicas_down_reads_fall_back_to_primary() {
    let mut lb =
        primary_and_replicas(LoadBalancingStrategy::Random, ReadWriteSplit::IncludePrimary);
    ban_replicas(&mut lb, 1000);
    assert_eq!(unbanned_ids(&lb), HashSet::from([primary_id(&mut lb)]));
}

#[test]
fn test_include_primary_primary_down_reads_go_to_replicas() {
    let mut lb =
        primary_and_replicas(LoadBalancingStrategy::Random, ReadWriteSplit::IncludePrimary);
    ban_primary(&mut lb, 1000);
    let ids = unbanned_ids(&lb);
    assert!(!ids.contains(&primary_id(&mut lb)));
    assert_eq!(ids.len(), 2);
}

#[test]
fn test_exclude_primary_healthy_replicas_primary_excluded_from_reads() {
    let mut lb = primary_and_replicas(LoadBalancingStrategy::Random, ReadWriteSplit::ExcludePrimary);
    let ids = unbanned_ids(&lb);
    assert!(!ids.contains(&primary_id(&mut lb)));
    assert_eq!(ids.len(), 2);
}

#[test]
fn test_include_primary_if_replica_banned_healthy_replicas_primary_excluded_from_reads() {
    let mut lb = primary_and_replicas(
        LoadBalancingStrategy::RoundRobin,
        ReadWriteSplit::IncludePrimaryIfReplicaBanned,
    );
    let ids = unbanned_ids(&lb);
    assert!(!ids.contains(&primary_id(&mut lb)));
    assert_eq!(ids.len(), 2);
}

#[test]
fn test_params_returns_params_from_non_banned_target() {
    assert!(two_replicas().params_target().is_ok());
}

#[test]
fn test_params_returns_all_replicas_down_when_all_banned() {
    let mut lb = two_replicas();
    ban_all(&mut lb, 60_000);
    assert!(matches!(lb.params_target(), Err(Error::AllReplicasDown)));
}

#[test]
fn test_params_skips_banned_targets() {
    let mut lb = two_replicas();
    ban(&mut lb, 0, 60_000);
    assert_eq!(lb.params_target().unwrap(), 1);
}

#[test]
fn test_params_returns_all_replicas_down_when_empty() {
    let lb = balancer(
        false,
        vec![],
        LoadBalancingStrategy::Random,
        ReadWriteSplit::IncludePrimary,
    );
    assert!(matches!(lb.params_target(), Err(Error::AllReplicasDown)));
}

#[test]
fn test_resharding_only_replicas_excluded_from_read_candidates() {
    let lb = balancer(
        true,
        vec![resharding_config("localhost", 5432)],
        LoadBalancingStrategy::Random,
        ReadWriteSplit::IncludePrimaryIfReplicaBanned,
    );
    assert!(lb.has_replicas());
    let candidates = lb.read_candidates().unwrap();
    assert!(!candidates.iter().any(|i| lb.targets[*i].role() == Role::Replica));
}

#[test]
fn test_prefer_primary_resharding_only_replicas_falls_back_to_primary() {
    let lb = balancer(
        true,
        vec![resharding_config("localhost", 5432)],
        LoadBalancingStrategy::Random,
        ReadWriteSplit::PreferPrimary,
    );
    assert!(lb.has_replicas());
    let candidates = lb.read_candidates().unwrap();
    assert_eq!(candidates.len(), 1);
    assert_eq!(lb.targets[candidates[0]].role(), Role::Primary);
}

#[test]
fn test_preferred_read_externally_banned_primary_stays_banned() {
    let mut lb =
        primary_and_replicas(LoadBalancingStrategy::RoundRobin, ReadWriteSplit::PreferPrimary);
    ban_primary(&mut lb, 5000);
    ban_replicas(&mut lb, 5000);
    let _ = preferred_read(&mut lb);
    let primary = lb.primary_target().unwrap();
    assert!(lb.targets[primary].ban.banned());
}

#[test]
fn test_lag_ban_all_replicas_prefer_primary_preferred_read() {
    let mut lb =
        primary_and_replicas(LoadBalancingStrategy::RoundRobin, ReadWriteSplit::PreferPrimary);
    lb.targets[0].pool.replica_lag = bad_lag();
    lb.targets[1].pool.replica_lag = bad_lag();
    let _ = lb.ban_check(&lag_threshold(), start());
    assert!(lb.targets[0].ban.banned());
    assert!(lb.targets[1].ban.banned());
    assert!(!lb.targets[2].ban.banned());
    assert_eq!(preferred_read(&mut lb).unwrap(), primary_id(&mut lb));
}

#[test]
fn test_lag_ban_primary_prefer_primary_preferred_read_skips_primary() {
    let mut lb =
        primary_and_replicas(LoadBalancingStrategy::RoundRobin, ReadWriteSplit::PreferPrimary);
    lb.targets[2].pool.replica_lag = bad_lag();
    let _ = lb.ban_check(&lag_threshold(), start());
    assert!(lb.targets[2].ban.banned());
    assert!(!lb.targets[0].ban.banned());
    assert!(!lb.targets[1].ban.banned());
    assert_ne!(preferred_read(&mut lb).unwrap(), primary_id(&mut lb));
    assert!(lb.targets[2].ban.banned());
}

#[test]
fn test_lag_ban_preferred_read_external_ban_preserved_after_lag_ban() {
    let mut lb =
        primary_and_replicas(LoadBalancingStrategy::RoundRobin, ReadWriteSplit::PreferPrimary);
    ban(&mut lb, 2, 5000);
    assert_eq!(lb.targets[2].ban.error(), Some(Error::ServerError));
    lb.targets[0].pool.replica_lag = bad_lag();
    lb.targets[1].pool.replica_lag = bad_lag();
    let _ = lb.ban_check(&lag_threshold(), start());
    assert!(lb.targets[0].ban.banned());
    assert!(lb.targets[1].ban.banned());
    assert!(preferred_read(&mut lb).is_err());
    assert!(lb.targets[2].ban.banned());
    assert_eq!(lb.targets[2].ban.error(), Some(Error::ServerError));
}

#[test]
fn test_any_read_includes_primary_and_replicas() {
    let mut lb =
        primary_and_replicas(LoadBalancingStrategy::Random, ReadWriteSplit::ExcludePrimary);
    let ids = used_by_any_read(&mut lb, 100);
    assert_eq!(ids.len(), 3);
    assert!(ids.contains(&primary_id(&mut lb)));
}

#[test]
fn test_any_read_exclude_primary_split_still_includes_primary() {
    let mut lb =
        primary_and_replicas(LoadBalancingStrategy::RoundRobin, ReadWriteSplit::ExcludePrimary);
    let ids = used_by_any_read(&mut lb, 30);
    assert!(ids.contains(&primary_id(&mut lb)));
}

#[test]
fn test_any_read_banned_target_skipped() {
    let mut lb =
        primary_and_replicas(LoadBalancingStrategy::RoundRobin, ReadWriteSplit::ExcludePrimary);
    ban(&mut lb, 0, 60_000);
    let ids = used_by_any_read(&mut lb, 20);
    assert!(!ids.contains(&lb.targets[0].pool.id()));
}

#[test]
fn test_any_read_resharding_only_excluded() {
    let mut lb = balancer(
        true,
        vec![resharding_config("localhost", 5433), pool_config("localhost", 5432)],
        LoadBalancingStrategy::RoundRobin,
        ReadWriteSplit::ExcludePrimary,
    );
    let ids = used_by_any_read(&mut lb, 20);
    assert!(!ids.contains(&lb.targets[0].pool.id()));
}

#[test]
fn test_any_read_all_down_returns_error() {
    let mut lb = balancer(
        true,
        vec![],
        LoadBalancingStrategy::Random,
        ReadWriteSplit::ExcludePrimary,
    );
    ban(&mut lb, 0, 60_000);
    assert!(any_read(&mut lb).is_err());
}

#[test]
fn running_weights_wrap_around() {
    let mut first = pool_config("127.0.0.1", 5432);
    let mut second = pool_config("localhost", 5432);
    first.config.lb_weight = 3;
    second.config.lb_weight = 1;
    let mut lb = balancer(
        false,
        vec![first, second],
        LoadBalancingStrategy::WeightedRoundRobin,
        ReadWriteSplit::IncludePrimary,
    );
    lb.targets[0].current_weight = i64::MAX;
    let mut candidates = vec![0, 1];
    lb.order_candidates(&mut candidates);
    assert_eq!(candidates, vec![1, 0]);
    assert_eq!(lb.targets[0].current_weight, i64::MIN + 2);
    assert_eq!(lb.targets[1].current_weight, -3);
}

#[test]
fn a_promotion_moves_writes() {
    let mut lb = primary_and_replica(ReadWriteSplit::IncludePrimary);
    lb.targets[0].pool.lsn_stats.replica = false;
    lb.targets[0].pool.lsn_stats.valid = true;
    lb.targets[0].pool.lsn_stats.fetched = start();
    lb.targets[1].pool.lsn_stats.replica = true;
    lb.targets[1].pool.lsn_stats.valid = true;
    assert!(lb.redetect_roles(later(10)));
    assert_eq!(lb.targets[0].role(), Role::Primary);
    assert_eq!(lb.targets[1].role(), Role::Replica);
    assert_eq!(lb.get_primary().unwrap(), 0);
    assert!(!lb.redetect_roles(later(20)));
}
