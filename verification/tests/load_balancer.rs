//! Load balancing over the servers of a shard.

use pgdog::config::database::{LoadBalancingStrategy, ReadWriteSplit, Role};
use pgdog::net::BackendKeyData;
use pgdog::pool::config::{Address, Config, PoolConfig};
use pgdog::pool::error::Error;
use pgdog::pool::lb::LoadBalancer;
use pgdog::pool::pool::{LsnStats, Pool, ReplicaLag};
use pgdog::pool::routing::PreferredAction;
use pgdog::server::connection::Server;
use pgdog::time::{Duration, Instant};

fn start() -> Instant {
    Instant { nanos: 1_000_000_000_000 }
}

fn later(millis: u64) -> Instant {
    start().later(Duration::from_millis(millis))
}

fn create_test_pool_config(host: &str, port: u16) -> PoolConfig {
    PoolConfig {
        address: Address {
            host: host.to_string(),
            port,
            user: "pgdog".to_string(),
            passwords: vec!["pgdog".to_string()],
            database_name: "pgdog".to_string(),
            configured_role: Role::Replica,
            ..Default::default()
        },
        config: Config {
            max: 1,
            checkout_timeout: Duration::from_millis(1000),
            ban_timeout: Duration::from_millis(100),
            ..Config::default()
        },
    }
}

fn setup_test_replicas_no_launch() -> LoadBalancer {
    LoadBalancer::new(
        None,
        &vec![
            create_test_pool_config("127.0.0.1", 5432),
            create_test_pool_config("localhost", 5432),
        ],
        LoadBalancingStrategy::Random,
        ReadWriteSplit::IncludePrimary,
        1,
    )
}

fn setup_primary_and_replicas_no_launch(
    strategy: LoadBalancingStrategy,
    split: ReadWriteSplit,
) -> LoadBalancer {
    let primary = Pool::new(&create_test_pool_config("127.0.0.1", 5432), 1);
    LoadBalancer::new(
        Some(primary),
        &vec![
            create_test_pool_config("localhost", 5432),
            create_test_pool_config("127.0.0.1", 5432),
        ],
        strategy,
        split,
        2,
    )
}

fn no_threshold() -> ReplicaLag {
    ReplicaLag { duration: Duration::longest(), bytes: i64::MAX }
}

fn standard_threshold() -> ReplicaLag {
    ReplicaLag { duration: Duration::from_secs(1), bytes: 100 }
}

fn bad_lag() -> ReplicaLag {
    ReplicaLag { duration: Duration::from_secs(10), bytes: 1000 }
}

fn high_lag() -> ReplicaLag {
    ReplicaLag { duration: Duration::from_secs(3600), bytes: 1_000_000_000 }
}

fn set_lag(lb: &mut LoadBalancer, idx: usize, lag: ReplicaLag) {
    lb.targets[idx].pool.replica_lag = lag;
}

fn ban(lb: &mut LoadBalancer, idx: usize, error: Error, millis: u64) {
    lb.targets[idx].ban.ban(error, Duration::from_millis(millis), start());
}

fn banned(lb: &LoadBalancer, idx: usize) -> bool {
    lb.targets[idx].ban.banned()
}

fn unbanned(lb: &LoadBalancer, candidates: &Vec<usize>) -> Vec<usize> {
    candidates.iter().filter(|c| !lb.targets[**c].ban.banned()).map(|c| *c).collect()
}

fn all_replicas(lb: &LoadBalancer, candidates: &Vec<usize>) -> bool {
    candidates.iter().all(|c| lb.targets[*c].role() == Role::Replica)
}

#[test]
fn test_ban_check_clears_expired_ban_when_healthy_no_lag() {
    let mut replicas = setup_test_replicas_no_launch();
    ban(&mut replicas, 0, Error::ServerError, 1);
    assert!(banned(&replicas, 0));
    replicas.ban_check(&no_threshold(), later(10));
    assert!(!banned(&replicas, 0));
}

#[test]
fn test_ban_check_does_not_clear_expired_ban_when_healthy_with_bad_lag() {
    let mut replicas = setup_test_replicas_no_launch();
    assert!(replicas.targets[0].pool.healthy());
    ban(&mut replicas, 0, Error::ServerError, 1);
    set_lag(&mut replicas, 0, bad_lag());
    assert!(banned(&replicas, 0));
    replicas.ban_check(&standard_threshold(), later(10));
    assert!(banned(&replicas, 0));
}

#[test]
fn test_ban_check_does_not_clear_expired_ban_when_unhealthy_with_bad_lag() {
    let mut replicas = setup_test_replicas_no_launch();
    replicas.targets[0].pool.health = false;
    ban(&mut replicas, 0, Error::ServerError, 1);
    set_lag(&mut replicas, 0, bad_lag());
    assert!(banned(&replicas, 0));
    replicas.ban_check(&standard_threshold(), later(10));
    assert!(banned(&replicas, 0));
}

#[test]
fn test_ban_check_bans_unhealthy_replica_with_bad_lag() {
    let mut replicas = setup_test_replicas_no_launch();
    replicas.targets[0].pool.health = false;
    set_lag(&mut replicas, 0, bad_lag());
    replicas.ban_check(&standard_threshold(), start());
    assert!(banned(&replicas, 0));
    assert_eq!(replicas.targets[0].ban.error(), Some(Error::ReplicaLag));
}

#[test]
fn test_ban_check_bans_healthy_replica_with_bad_lag() {
    let mut replicas = setup_test_replicas_no_launch();
    assert!(replicas.targets[0].pool.healthy());
    set_lag(&mut replicas, 0, bad_lag());
    replicas.ban_check(&standard_threshold(), start());
    assert!(banned(&replicas, 0));
    assert_eq!(replicas.targets[0].ban.error(), Some(Error::ReplicaLag));
}

#[test]
fn test_ban_check_bans_with_pool_unhealthy_reason() {
    let mut replicas = setup_test_replicas_no_launch();
    replicas.targets[0].pool.health = false;
    replicas.ban_check(&no_threshold(), start());
    assert!(banned(&replicas, 0));
    assert_eq!(replicas.targets[0].ban.error(), Some(Error::PoolUnhealthy));
}

#[test]
fn test_ban_check_does_not_ban_single_target() {
    let mut replicas = LoadBalancer::new(
        None,
        &vec![create_test_pool_config("127.0.0.1", 5432)],
        LoadBalancingStrategy::Random,
        ReadWriteSplit::IncludePrimary,
        1,
    );
    replicas.targets[0].pool.health = false;
    replicas.ban_check(&no_threshold(), start());
    assert!(!banned(&replicas, 0));
}

#[test]
fn test_ban_check_does_not_ban_with_zero_ban_timeout() {
    let mut first = create_test_pool_config("127.0.0.1", 5432);
    first.config.ban_timeout = Duration::zero();
    let mut second = create_test_pool_config("localhost", 5432);
    second.config.ban_timeout = Duration::zero();
    let mut replicas = LoadBalancer::new(
        None,
        &vec![first, second],
        LoadBalancingStrategy::Random,
        ReadWriteSplit::IncludePrimary,
        1,
    );
    replicas.targets[0].pool.health = false;
    replicas.ban_check(&no_threshold(), start());
    assert!(!banned(&replicas, 0));
}

#[test]
fn test_ban_check_unbans_all_when_all_unhealthy() {
    let mut replicas = setup_test_replicas_no_launch();
    ban(&mut replicas, 0, Error::ServerError, 60_000);
    ban(&mut replicas, 1, Error::ServerError, 60_000);
    replicas.targets[0].pool.health = false;
    replicas.targets[1].pool.health = false;
    assert!(banned(&replicas, 0));
    assert!(banned(&replicas, 1));
    replicas.ban_check(&no_threshold(), start());
    assert!(!banned(&replicas, 0));
    assert!(!banned(&replicas, 1));
}

#[test]
fn test_ban_check_does_not_clear_unexpired_ban() {
    let mut replicas = setup_test_replicas_no_launch();
    ban(&mut replicas, 0, Error::ServerError, 60_000);
    assert!(banned(&replicas, 0));
    replicas.ban_check(&no_threshold(), start());
    assert!(banned(&replicas, 0));
}

#[test]
fn test_ban_check_default_threshold_does_not_ban_healthy_replica_with_high_lag() {
    let mut replicas = setup_test_replicas_no_launch();
    assert!(replicas.targets[0].pool.healthy());
    set_lag(&mut replicas, 0, high_lag());
    replicas.ban_check(&no_threshold(), start());
    assert!(!banned(&replicas, 0));
}

#[test]
fn test_ban_check_default_threshold_bans_unhealthy_with_pool_unhealthy_reason() {
    let mut replicas = setup_test_replicas_no_launch();
    set_lag(&mut replicas, 0, high_lag());
    replicas.targets[0].pool.health = false;
    replicas.ban_check(&no_threshold(), start());
    assert!(banned(&replicas, 0));
    assert_eq!(replicas.targets[0].ban.error(), Some(Error::PoolUnhealthy));
}

#[test]
fn test_ban_check_default_threshold_clears_expired_ban_despite_high_lag() {
    let mut replicas = setup_test_replicas_no_launch();
    ban(&mut replicas, 0, Error::ServerError, 1);
    set_lag(&mut replicas, 0, high_lag());
    assert!(banned(&replicas, 0));
    replicas.ban_check(&no_threshold(), later(10));
    assert!(!banned(&replicas, 0));
}

#[test]
fn test_preferred_read_no_primary_candidates_are_replicas() {
    let mut lb = LoadBalancer::new(
        None,
        &vec![
            create_test_pool_config("localhost", 5432),
            create_test_pool_config("127.0.0.1", 5432),
        ],
        LoadBalancingStrategy::RoundRobin,
        ReadWriteSplit::PreferPrimary,
        1,
    );
    assert!(lb.primary_target().is_none());
    let candidates = lb.read_candidates().unwrap();
    assert_eq!(candidates.len(), 2);
    assert!(all_replicas(&lb, &candidates));
}

#[test]
fn test_lag_ban_one_replica_include_primary() {
    let mut lb = setup_primary_and_replicas_no_launch(
        LoadBalancingStrategy::Random,
        ReadWriteSplit::IncludePrimary,
    );
    set_lag(&mut lb, 0, bad_lag());
    lb.ban_check(&standard_threshold(), start());
    assert!(banned(&lb, 0));
    assert!(!banned(&lb, 1));
    assert!(!banned(&lb, 2));
    let candidates = lb.read_candidates().unwrap();
    assert_eq!(candidates.len(), 3);
    assert_eq!(unbanned(&lb, &candidates).len(), 2);
}

#[test]
fn test_lag_ban_all_replicas_include_primary() {
    let mut lb = setup_primary_and_replicas_no_launch(
        LoadBalancingStrategy::Random,
        ReadWriteSplit::IncludePrimary,
    );
    set_lag(&mut lb, 0, bad_lag());
    set_lag(&mut lb, 1, bad_lag());
    lb.ban_check(&standard_threshold(), start());
    assert!(banned(&lb, 0));
    assert!(banned(&lb, 1));
    assert!(!banned(&lb, 2));
    let candidates = lb.read_candidates().unwrap();
    assert_eq!(candidates.len(), 3);
    let unbanned = unbanned(&lb, &candidates);
    assert_eq!(unbanned.len(), 1);
    assert_eq!(lb.targets[unbanned[0]].role(), Role::Primary);
}

#[test]
fn test_lag_ban_primary_include_primary() {
    let mut lb = setup_primary_and_replicas_no_launch(
        LoadBalancingStrategy::Random,
        ReadWriteSplit::IncludePrimary,
    );
    set_lag(&mut lb, 2, bad_lag());
    lb.ban_check(&standard_threshold(), start());
    assert!(!banned(&lb, 0));
    assert!(!banned(&lb, 1));
    assert!(banned(&lb, 2));
    let candidates = lb.read_candidates().unwrap();
    assert_eq!(candidates.len(), 3);
    let unbanned = unbanned(&lb, &candidates);
    assert_eq!(unbanned.len(), 2);
    assert!(all_replicas(&lb, &unbanned));
}

#[test]
fn test_lag_ban_all_targets_include_primary_safety_valve() {
    let mut lb = setup_primary_and_replicas_no_launch(
        LoadBalancingStrategy::Random,
        ReadWriteSplit::IncludePrimary,
    );
    for i in 0..3 {
        set_lag(&mut lb, i, bad_lag());
    }
    lb.ban_check(&standard_threshold(), start());
    assert!(!banned(&lb, 0));
    assert!(!banned(&lb, 1));
    assert!(!banned(&lb, 2));
    let candidates = lb.read_candidates().unwrap();
    assert_eq!(candidates.len(), 3);
    assert_eq!(unbanned(&lb, &candidates).len(), 3);
}

#[test]
fn test_lag_ban_one_replica_exclude_primary() {
    let mut lb = setup_primary_and_replicas_no_launch(
        LoadBalancingStrategy::Random,
        ReadWriteSplit::ExcludePrimary,
    );
    set_lag(&mut lb, 0, bad_lag());
    lb.ban_check(&standard_threshold(), start());
    assert!(banned(&lb, 0));
    let candidates = lb.read_candidates().unwrap();
    assert_eq!(candidates.len(), 2);
    assert_eq!(unbanned(&lb, &candidates).len(), 1);
}

#[test]
fn test_lag_ban_all_replicas_exclude_primary_no_fallback() {
    let mut lb = setup_primary_and_replicas_no_launch(
        LoadBalancingStrategy::Random,
        ReadWriteSplit::ExcludePrimary,
    );
    set_lag(&mut lb, 0, bad_lag());
    set_lag(&mut lb, 1, bad_lag());
    lb.ban_check(&standard_threshold(), start());
    assert!(banned(&lb, 0));
    assert!(banned(&lb, 1));
    let candidates = lb.read_candidates().unwrap();
    assert_eq!(candidates.len(), 2);
    assert_eq!(unbanned(&lb, &candidates).len(), 0);
}

#[test]
fn test_lag_ban_primary_exclude_primary_irrelevant() {
    let mut lb = setup_primary_and_replicas_no_launch(
        LoadBalancingStrategy::Random,
        ReadWriteSplit::ExcludePrimary,
    );
    set_lag(&mut lb, 2, bad_lag());
    lb.ban_check(&standard_threshold(), start());
    assert!(banned(&lb, 2));
    let candidates = lb.read_candidates().unwrap();
    assert_eq!(candidates.len(), 2);
    let unbanned = unbanned(&lb, &candidates);
    assert_eq!(unbanned.len(), 2);
    assert!(all_replicas(&lb, &unbanned));
}

#[test]
fn test_lag_ban_mixed_reasons_exclude_primary() {
    let mut lb = setup_primary_and_replicas_no_launch(
        LoadBalancingStrategy::Random,
        ReadWriteSplit::ExcludePrimary,
    );
    lb.targets[0].pool.health = false;
    set_lag(&mut lb, 1, bad_lag());
    lb.ban_check(&standard_threshold(), start());
    assert!(banned(&lb, 0));
    assert_eq!(lb.targets[0].ban.error(), Some(Error::PoolUnhealthy));
    assert!(banned(&lb, 1));
    assert_eq!(lb.targets[1].ban.error(), Some(Error::ReplicaLag));
    let candidates = lb.read_candidates().unwrap();
    assert_eq!(candidates.len(), 2);
    assert_eq!(unbanned(&lb, &candidates).len(), 0);
}

#[test]
fn test_lag_ban_one_replica_if_banned_primary_excluded() {
    let mut lb = setup_primary_and_replicas_no_launch(
        LoadBalancingStrategy::Random,
        ReadWriteSplit::IncludePrimaryIfReplicaBanned,
    );
    set_lag(&mut lb, 0, bad_lag());
    lb.ban_check(&standard_threshold(), start());
    assert!(banned(&lb, 0));
    let candidates = lb.read_candidates().unwrap();
    assert_eq!(candidates.len(), 2);
    assert!(all_replicas(&lb, &candidates));
}

#[test]
fn test_lag_ban_all_replicas_if_banned_primary_included() {
    let mut lb = setup_primary_and_replicas_no_launch(
        LoadBalancingStrategy::Random,
        ReadWriteSplit::IncludePrimaryIfReplicaBanned,
    );
    set_lag(&mut lb, 0, bad_lag());
    set_lag(&mut lb, 1, bad_lag());
    lb.ban_check(&standard_threshold(), start());
    assert!(banned(&lb, 0));
    assert!(banned(&lb, 1));
    let candidates = lb.read_candidates().unwrap();
    assert_eq!(candidates.len(), 3);
    let unbanned = unbanned(&lb, &candidates);
    assert_eq!(unbanned.len(), 1);
    assert_eq!(lb.targets[unbanned[0]].role(), Role::Primary);
}

#[test]
fn test_lag_ban_all_targets_if_banned_safety_valve() {
    let mut lb = setup_primary_and_replicas_no_launch(
        LoadBalancingStrategy::Random,
        ReadWriteSplit::IncludePrimaryIfReplicaBanned,
    );
    for i in 0..3 {
        set_lag(&mut lb, i, bad_lag());
    }
    lb.ban_check(&standard_threshold(), start());
    assert!(!banned(&lb, 0));
    assert!(!banned(&lb, 1));
    assert!(!banned(&lb, 2));
    let candidates = lb.read_candidates().unwrap();
    assert_eq!(candidates.len(), 2);
    assert!(all_replicas(&lb, &candidates));
    assert_eq!(unbanned(&lb, &candidates).len(), 2);
}

fn setup_short_bans() -> LoadBalancer {
    let mut first = create_test_pool_config("127.0.0.1", 5432);
    first.config.ban_timeout = Duration::from_millis(1);
    let mut second = create_test_pool_config("localhost", 5432);
    second.config.ban_timeout = Duration::from_millis(1);
    let primary = Pool::new(&first, 1);
    LoadBalancer::new(
        Some(primary),
        &vec![first, second],
        LoadBalancingStrategy::Random,
        ReadWriteSplit::IncludePrimaryIfReplicaBanned,
        2,
    )
}

#[test]
fn test_lag_ban_replicas_recover_if_banned_primary_excluded_again() {
    let mut lb = setup_short_bans();
    let threshold = standard_threshold();

    set_lag(&mut lb, 0, bad_lag());
    set_lag(&mut lb, 1, bad_lag());
    lb.ban_check(&threshold, start());
    assert!(banned(&lb, 0));
    assert!(banned(&lb, 1));
    let candidates = lb.read_candidates().unwrap();
    assert_eq!(candidates.len(), 3);

    set_lag(&mut lb, 0, ReplicaLag::default());
    set_lag(&mut lb, 1, ReplicaLag::default());
    lb.ban_check(&threshold, later(10));
    assert!(!banned(&lb, 0));
    assert!(!banned(&lb, 1));

    let candidates = lb.read_candidates().unwrap();
    assert_eq!(candidates.len(), 2);
    assert!(all_replicas(&lb, &candidates));
}

#[test]
fn test_lag_ban_one_replica_prefer_primary_primary_not_in_candidates() {
    let mut lb = setup_primary_and_replicas_no_launch(
        LoadBalancingStrategy::Random,
        ReadWriteSplit::PreferPrimary,
    );
    set_lag(&mut lb, 0, bad_lag());
    lb.ban_check(&standard_threshold(), start());
    let candidates = lb.read_candidates().unwrap();
    assert_eq!(candidates.len(), 2);
    assert!(all_replicas(&lb, &candidates));
}

#[test]
fn test_lag_ban_all_replicas_prefer_primary_primary_in_candidates() {
    let mut lb = setup_primary_and_replicas_no_launch(
        LoadBalancingStrategy::Random,
        ReadWriteSplit::PreferPrimary,
    );
    set_lag(&mut lb, 0, bad_lag());
    set_lag(&mut lb, 1, bad_lag());
    lb.ban_check(&standard_threshold(), start());
    let candidates = lb.read_candidates().unwrap();
    assert_eq!(candidates.len(), 3);
    let unbanned = unbanned(&lb, &candidates);
    assert_eq!(unbanned.len(), 1);
    assert_eq!(lb.targets[unbanned[0]].role(), Role::Primary);
}

#[test]
fn test_lag_ban_bytes_threshold_triggers_ban() {
    let mut lb = setup_primary_and_replicas_no_launch(
        LoadBalancingStrategy::Random,
        ReadWriteSplit::IncludePrimary,
    );
    let threshold = ReplicaLag { duration: Duration::longest(), bytes: 100 };
    set_lag(&mut lb, 0, ReplicaLag { bytes: 200, duration: Duration::zero() });
    lb.ban_check(&threshold, start());
    assert!(banned(&lb, 0));
    assert_eq!(lb.targets[0].ban.error(), Some(Error::ReplicaLag));
}

#[test]
fn test_lag_ban_duration_threshold_triggers_ban() {
    let mut lb = setup_primary_and_replicas_no_launch(
        LoadBalancingStrategy::Random,
        ReadWriteSplit::IncludePrimary,
    );
    let threshold = ReplicaLag { duration: Duration::from_secs(5), bytes: i64::MAX };
    set_lag(&mut lb, 0, ReplicaLag { bytes: 0, duration: Duration::from_secs(10) });
    lb.ban_check(&threshold, start());
    assert!(banned(&lb, 0));
    assert_eq!(lb.targets[0].ban.error(), Some(Error::ReplicaLag));
}

#[test]
fn test_lag_ban_safety_valve_all_rw_splits() {
    let splits = [
        ReadWriteSplit::IncludePrimary,
        ReadWriteSplit::ExcludePrimary,
        ReadWriteSplit::IncludePrimaryIfReplicaBanned,
        ReadWriteSplit::PreferPrimary,
    ];
    for split in splits {
        let mut lb = setup_primary_and_replicas_no_launch(LoadBalancingStrategy::Random, split);
        for i in 0..3 {
            lb.targets[i].pool.health = false;
        }
        lb.ban_check(&standard_threshold(), start());
        assert!(!banned(&lb, 0));
        assert!(!banned(&lb, 1));
        assert!(!banned(&lb, 2));
        assert!(lb.read_candidates().is_ok());
    }
}

#[test]
fn test_lag_ban_mixed_unhealthy_and_lag() {
    let mut lb = setup_primary_and_replicas_no_launch(
        LoadBalancingStrategy::Random,
        ReadWriteSplit::IncludePrimaryIfReplicaBanned,
    );
    lb.targets[0].pool.health = false;
    set_lag(&mut lb, 1, bad_lag());
    lb.ban_check(&standard_threshold(), start());
    assert!(banned(&lb, 0));
    assert_eq!(lb.targets[0].ban.error(), Some(Error::PoolUnhealthy));
    assert!(banned(&lb, 1));
    assert_eq!(lb.targets[1].ban.error(), Some(Error::ReplicaLag));
    assert!(!banned(&lb, 2));
    let candidates = lb.read_candidates().unwrap();
    assert_eq!(candidates.len(), 3);
    let unbanned = unbanned(&lb, &candidates);
    assert_eq!(unbanned.len(), 1);
    assert_eq!(lb.targets[unbanned[0]].role(), Role::Primary);
}

#[test]
fn test_lag_ban_repeated_cycles_converge() {
    let mut lb = setup_short_bans();
    let threshold = standard_threshold();

    set_lag(&mut lb, 0, bad_lag());
    lb.ban_check(&threshold, start());
    assert!(banned(&lb, 0));
    assert!(!banned(&lb, 1));
    let candidates = lb.read_candidates().unwrap();
    assert_eq!(candidates.len(), 2);
    assert!(all_replicas(&lb, &candidates));

    set_lag(&mut lb, 1, bad_lag());
    lb.ban_check(&threshold, start());
    assert!(banned(&lb, 0));
    assert!(banned(&lb, 1));
    let candidates = lb.read_candidates().unwrap();
    assert_eq!(candidates.len(), 3);

    set_lag(&mut lb, 0, ReplicaLag::default());
    set_lag(&mut lb, 1, ReplicaLag::default());
    lb.ban_check(&threshold, later(10));
    assert!(!banned(&lb, 0));
    assert!(!banned(&lb, 1));
    let candidates = lb.read_candidates().unwrap();
    assert_eq!(candidates.len(), 2);
    assert!(all_replicas(&lb, &candidates));

    lb.targets[0].pool.health = false;
    lb.ban_check(&threshold, later(10));
    assert!(banned(&lb, 0));
    assert_eq!(lb.targets[0].ban.error(), Some(Error::PoolUnhealthy));
    assert!(!banned(&lb, 1));
    let candidates = lb.read_candidates().unwrap();
    assert_eq!(candidates.len(), 2);
    assert!(all_replicas(&lb, &candidates));
}

#[test]
fn candidates_keep_their_number_in_any_order() {
    for strategy in [
        LoadBalancingStrategy::Random,
        LoadBalancingStrategy::RoundRobin,
        LoadBalancingStrategy::LeastActiveConnections,
        LoadBalancingStrategy::WeightedRoundRobin,
    ] {
        let mut lb = setup_primary_and_replicas_no_launch(strategy, ReadWriteSplit::IncludePrimary);
        for _ in 0..10 {
            let mut candidates = lb.read_candidates().unwrap();
            lb.order_candidates(&mut candidates);
            let mut sorted: Vec<usize> = candidates.iter().map(|c| *c).collect();
            sorted.sort();
            assert_eq!(sorted, vec![0, 1, 2]);
        }
    }
}

#[test]
fn random_order_is_not_always_the_same() {
    let mut lb = setup_primary_and_replicas_no_launch(
        LoadBalancingStrategy::Random,
        ReadWriteSplit::IncludePrimary,
    );
    let mut firsts: Vec<usize> = Vec::new();
    for _ in 0..200 {
        let mut candidates = lb.read_candidates().unwrap();
        lb.order_candidates(&mut candidates);
        firsts.push(candidates[0]);
    }
    assert!((0..3).all(|i| firsts.contains(&i)));
}

#[test]
fn round_robin_takes_turns() {
    let mut lb = setup_primary_and_replicas_no_launch(
        LoadBalancingStrategy::RoundRobin,
        ReadWriteSplit::IncludePrimary,
    );
    let mut firsts: Vec<usize> = Vec::new();
    for _ in 0..6 {
        let mut candidates = lb.read_candidates().unwrap();
        lb.order_candidates(&mut candidates);
        firsts.push(candidates[0]);
    }
    assert_eq!(firsts[0..3], firsts[3..6]);
    let mut turn: Vec<usize> = firsts[0..3].to_vec();
    turn.sort();
    assert_eq!(turn, vec![0, 1, 2]);
}

#[test]
fn least_active_connections_come_first() {
    let mut lb = setup_primary_and_replicas_no_launch(
        LoadBalancingStrategy::LeastActiveConnections,
        ReadWriteSplit::IncludePrimary,
    );
    lb.targets[0].pool.checked_out_count = 3;
    lb.targets[2].pool.checked_out_count = 1;
    let mut candidates = vec![0, 1, 2];
    lb.order_candidates(&mut candidates);
    assert_eq!(candidates, vec![1, 2, 0]);
}

fn weighted(weights: &[u8], rounds: usize) -> Vec<usize> {
    let mut addrs = vec![];
    for weight in weights {
        let mut config = create_test_pool_config("localhost", 5432);
        config.config.lb_weight = *weight;
        addrs.push(config);
    }
    let mut lb = LoadBalancer::new(
        None,
        &addrs,
        LoadBalancingStrategy::WeightedRoundRobin,
        ReadWriteSplit::IncludePrimary,
        1,
    );
    let mut chosen = vec![];
    for _ in 0..rounds {
        let mut candidates = lb.read_candidates().unwrap();
        lb.order_candidates(&mut candidates);
        chosen.push(candidates[0]);
    }
    chosen
}

#[test]
fn test_weighted_round_robin_smooth_distribution() {
    // Of two servers with the same running weight the last one wins.
    assert_eq!(weighted(&[5, 1], 6), vec![0, 0, 1, 0, 0, 0]);
    assert_eq!(weighted(&[5, 1, 1], 7), vec![0, 0, 2, 0, 1, 0, 0]);
}

#[test]
fn test_weighted_round_robin_equal_weights() {
    assert_eq!(weighted(&[1, 1], 4), vec![1, 0, 1, 0]);
}

#[test]
fn test_weighted_round_robin_zero_weight_never_selected() {
    let chosen = weighted(&[0, 10], 20);
    assert!(chosen.iter().all(|c| *c == 1));
}

#[test]
fn test_weighted_round_robin_proportional_distribution() {
    let chosen = weighted(&[3, 1], 40);
    assert_eq!(chosen.iter().filter(|c| **c == 0).count(), 30);
    assert_eq!(chosen.iter().filter(|c| **c == 1).count(), 10);
}

#[test]
fn failing_candidates_are_banned_and_passed_over() {
    let mut lb = setup_primary_and_replicas_no_launch(
        LoadBalancingStrategy::RoundRobin,
        ReadWriteSplit::ExcludePrimary,
    );
    lb.launch();
    let candidates = lb.read_candidates().unwrap();
    let mut run = lb.try_candidates(candidates);
    let first = lb.next_candidate(&mut run).unwrap();
    lb.candidate_failed(&run, first, Error::ServerError, start());
    assert!(banned(&lb, first));
    let second = lb.next_candidate(&mut run).unwrap();
    assert_ne!(first, second);
    lb.candidate_failed(&run, second, Error::ServerError, start());
    assert!(lb.next_candidate(&mut run).is_none());
    // Nobody is left, so everyone gets another chance.
    assert_eq!(lb.candidates_exhausted(&run), Error::AllReplicasDown);
    assert!(!banned(&lb, first));
    assert!(!banned(&lb, second));
}

#[test]
fn offline_pools_are_not_banned() {
    let mut lb = setup_primary_and_replicas_no_launch(
        LoadBalancingStrategy::RoundRobin,
        ReadWriteSplit::ExcludePrimary,
    );
    let candidates = lb.read_candidates().unwrap();
    let run = lb.try_candidates(candidates);
    lb.candidate_failed(&run, 0, Error::Offline, start());
    assert!(!banned(&lb, 0));
}

#[test]
fn preferred_reads_fall_back() {
    let mut lb = setup_primary_and_replicas_no_launch(
        LoadBalancingStrategy::RoundRobin,
        ReadWriteSplit::PreferPrimary,
    );
    lb.launch();
    let (plan, action) = lb.preferred_read();
    assert!(matches!(action, PreferredAction::TryPrimary(2)));
    assert!(!plan.primary_was_banned);
    lb.targets[2].pool.inner.idle_connections.push(Box::new(Server::default()));
    let (action, closed) = lb.preferred_failed(&plan, Error::ServerError, start());
    assert_eq!(closed.len(), 1);
    assert!(matches!(action, PreferredAction::TryReplicas(_)));
    assert!(banned(&lb, 2));

    // A primary that was banned before stays banned.
    let mut lb = setup_primary_and_replicas_no_launch(
        LoadBalancingStrategy::RoundRobin,
        ReadWriteSplit::PreferPrimary,
    );
    ban(&mut lb, 2, Error::ServerError, 5000);
    let (plan, action) = lb.preferred_read();
    assert!(plan.primary_was_banned);
    assert!(matches!(action, PreferredAction::TryReplicas(_)));
    lb.preferred_exhausted(&plan);
    assert!(banned(&lb, 2));
}

#[test]
fn test_preferred_read_no_primary_no_replicas_returns_error() {
    let mut lb = LoadBalancer::new(
        None,
        &vec![],
        LoadBalancingStrategy::Random,
        ReadWriteSplit::PreferPrimary,
        1,
    );
    let (_, action) = lb.preferred_read();
    assert!(matches!(action, PreferredAction::GiveUp(Error::AllReplicasDown)));
    assert!(matches!(lb.read_candidates(), Err(Error::AllReplicasDown)));
    assert!(matches!(lb.any_read(), Err(Error::AllReplicasDown)));
    assert!(matches!(lb.params_target(), Err(Error::AllReplicasDown)));
    assert!(matches!(lb.get_primary(), Err(Error::NoPrimary)));
}

#[test]
fn test_preferred_read_primary_banned_no_replicas_returns_preferred_read_unavailable() {
    let primary = Pool::new(&create_test_pool_config("127.0.0.1", 5432), 1);
    let mut lb = LoadBalancer::new(
        Some(primary),
        &vec![],
        LoadBalancingStrategy::Random,
        ReadWriteSplit::PreferPrimary,
        2,
    );
    ban(&mut lb, 0, Error::ServerError, 5000);
    let (_, action) = lb.preferred_read();
    assert!(matches!(action, PreferredAction::GiveUp(Error::PreferredReadUnavailable)));
}

#[test]
fn resharding_servers_serve_no_traffic() {
    let primary = Pool::new(&create_test_pool_config("127.0.0.1", 5432), 1);
    let mut resharding = create_test_pool_config("localhost", 5433);
    resharding.config.resharding_only = true;
    let lb = LoadBalancer::new(
        Some(primary),
        &vec![resharding, create_test_pool_config("localhost", 5432)],
        LoadBalancingStrategy::RoundRobin,
        ReadWriteSplit::ExcludePrimary,
        2,
    );
    assert_eq!(lb.any_read().unwrap(), vec![1, 2]);
    assert_eq!(lb.read_candidates().unwrap(), vec![1]);
    assert_eq!(lb.replica_candidates(), vec![1]);
}

#[test]
fn the_newest_leader_becomes_primary() {
    let mut lb = setup_test_replicas_no_launch();
    assert!(lb.primary_target().is_none());
    lb.targets[0].pool.lsn_stats = LsnStats { replica: false, valid: true, fetched: start() };
    lb.targets[0].set_role(Role::Auto);
    lb.targets[1].set_role(Role::Auto);
    lb.targets[1].pool.lsn_stats = LsnStats { replica: true, valid: true, fetched: start() };
    assert!(lb.redetect_roles(later(1)));
    assert_eq!(lb.targets[0].role(), Role::Primary);
    assert_eq!(lb.targets[1].role(), Role::Replica);
    assert_eq!(lb.primary_target(), Some(0));

    // The other server is promoted.
    lb.targets[0].pool.lsn_stats = LsnStats { replica: true, valid: true, fetched: later(2) };
    lb.targets[1].pool.lsn_stats = LsnStats { replica: false, valid: true, fetched: later(2) };
    assert!(lb.redetect_roles(later(3)));
    assert_eq!(lb.primary_target(), Some(1));
    assert_eq!(lb.targets[0].role(), Role::Replica);
}

#[test]
fn test_can_move_conns_to_same_config() {
    let a = setup_test_replicas_no_launch();
    let b = setup_test_replicas_no_launch();
    assert!(a.can_move_conns_to(&b));
}

#[test]
fn test_can_move_conns_to_different_count() {
    let a = setup_test_replicas_no_launch();
    let b = setup_primary_and_replicas_no_launch(
        LoadBalancingStrategy::Random,
        ReadWriteSplit::IncludePrimary,
    );
    assert!(!a.can_move_conns_to(&b));
}

#[test]
fn test_can_move_conns_to_different_addresses() {
    let a = setup_test_replicas_no_launch();
    let b = LoadBalancer::new(
        None,
        &vec![
            create_test_pool_config("127.0.0.1", 5432),
            create_test_pool_config("localhost", 5433),
        ],
        LoadBalancingStrategy::Random,
        ReadWriteSplit::IncludePrimary,
        10,
    );
    assert!(!a.can_move_conns_to(&b));
}

#[test]
fn connections_move_along() {
    let mut a = setup_test_replicas_no_launch();
    let mut b = LoadBalancer::new(
        None,
        &vec![
            create_test_pool_config("127.0.0.1", 5432),
            create_test_pool_config("localhost", 5432),
        ],
        LoadBalancingStrategy::Random,
        ReadWriteSplit::IncludePrimary,
        10,
    );
    a.launch();
    let mut server = Server::default();
    server.id = BackendKeyData { pid: 5, secret: 5 };
    a.targets[0].pool.inner.idle_connections.push(Box::new(server));
    a.targets[1].set_role(Role::Primary);
    a.move_conns_to(&mut b, start()).unwrap();
    assert_eq!(a.targets[0].pool.inner.total(), 0);
    assert_eq!(b.targets[0].pool.inner.total(), 1);
    assert_eq!(b.targets[1].role(), Role::Primary);
    assert_eq!(b.primary_target(), Some(1));
    assert_eq!(b.primary().unwrap().id(), b.targets[1].pool.id());
}

#[test]
fn a_promoted_server_still_leads_where_connections_move_to() {
    let mut a = setup_test_replicas_no_launch();
    let mut b = LoadBalancer::new(
        None,
        &vec![
            create_test_pool_config("127.0.0.1", 5432),
            create_test_pool_config("localhost", 5432),
        ],
        LoadBalancingStrategy::Random,
        ReadWriteSplit::IncludePrimary,
        10,
    );
    for lb in [&mut a, &mut b] {
        for target in &mut lb.targets {
            target.set_role(Role::Auto);
        }
        lb.launch();
    }
    a.targets[0].pool.lsn_stats = LsnStats { replica: true, valid: true, fetched: start() };
    a.targets[1].pool.lsn_stats = LsnStats { replica: false, valid: true, fetched: start() };
    assert!(a.redetect_roles(later(1)));
    assert_eq!(a.primary_target(), Some(1));

    b.targets[0].pool.lsn_stats = LsnStats { replica: false, valid: true, fetched: start() };
    b.targets[1].pool.lsn_stats = LsnStats { replica: true, valid: true, fetched: start() };
    assert!(b.redetect_roles(later(1)));
    assert_eq!(b.primary_target(), Some(0));

    // The other balancer remembers another server, which leads no longer.
    a.move_conns_to(&mut b, start()).unwrap();
    assert_eq!(b.targets[0].role(), Role::Replica);
    assert_eq!(b.targets[1].role(), Role::Primary);
    let leader = b.targets[1].pool.id();
    assert_eq!(b.primary().unwrap().id(), leader);
    assert_eq!(b.get_primary().unwrap(), 1);
}

#[test]
fn a_leader_that_is_out_of_date_is_looked_up_again() {
    let mut lb = setup_primary_and_replicas_no_launch(
        LoadBalancingStrategy::Random,
        ReadWriteSplit::IncludePrimary,
    );
    let leads = lb.primary_target().unwrap();
    let other = (0..lb.targets.len()).find(|i| *i != leads).unwrap();
    lb.targets[leads].set_role(Role::Replica);
    lb.targets[other].set_role(Role::Primary);
    let id = lb.targets[other].pool.id();
    assert_eq!(lb.primary().unwrap().id(), id);
    assert_eq!(lb.primary_target(), Some(other));
    lb.targets[other].set_role(Role::Replica);
    assert!(lb.primary().is_none());
}

#[test]
fn shutting_down_hands_out_idle_connections() {
    let mut lb = setup_test_replicas_no_launch();
    lb.launch();
    assert!(lb.online());
    lb.targets[1].pool.inner.idle_connections.push(Box::new(Server::default()));
    let closed = lb.shutdown();
    assert_eq!(closed.len(), 1);
    assert!(!lb.online());
}
