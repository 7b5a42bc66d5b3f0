//! Pools of connections to one server.

use pgdog::config::database::Role;
use pgdog::config::general::{PoolerMode, PreparedStatements};
use pgdog::net::{BackendKeyData, Parameters};
use pgdog::pool::config::{Address, Config, PoolConfig};
use pgdog::pool::error::Error;
use pgdog::pool::inner::{ShouldCreate, Waiter};
use pgdog::pool::pool::{Checked, GetOutcome, Pool};
use pgdog::pool::shard::{Shard, ShardConfig};
use pgdog::pool::taken::Request;
use pgdog::server::connection::{DisconnectReason, Server};
use pgdog::server::stats::State;
use pgdog::time::{Duration, Instant};
use tokio::sync::oneshot::channel;

fn key(n: i32) -> BackendKeyData {
    BackendKeyData { pid: n, secret: n }
}

fn server(n: i32) -> Box<Server> {
    let mut server = Server::default();
    server.id = key(n);
    Box::new(server)
}

fn config() -> PoolConfig {
    PoolConfig {
        address: Address { host: "127.0.0.1".to_string(), port: 5432, ..Default::default() },
        config: Config { max: 2, ..Config::default() },
    }
}

fn pool(id: u64) -> Pool {
    let mut pool = Pool::new(&config(), id);
    assert!(pool.launch());
    assert!(!pool.launch());
    pool
}

fn now() -> Instant {
    Instant { nanos: 1_000_000_000 }
}

fn request(n: i32, read: bool) -> Request {
    Request::new(key(n), now(), read)
}

#[test]
fn connections_are_checked_out_and_in() {
    let mut pool = pool(1);
    pool.inner.idle_connections.push(server(5));
    let checkout = pool.get_internal(&request(100, true)).unwrap();
    let mut conn = checkout.server.unwrap();
    assert!(!checkout.paused);
    assert_eq!(pool.checked_out_count(), 1);
    assert_eq!(pool.peer(&key(100)), Some(key(5)));
    assert_eq!(pool.inner.counts.reads, 1);
    assert_eq!(pool.inner.counts.writes, 0);
    assert!(pool.get_internal(&request(101, false)).unwrap().server.is_none());

    pool.prepare(&mut conn);
    assert_eq!(*conn.pooler_mode(), PoolerMode::Transaction);

    let result = pool.checkin(conn, now()).unwrap();
    assert!(result.closed.is_none());
    assert_eq!(pool.checked_out_count(), 0);
    assert_eq!(pool.inner.idle(), 1);
    assert_eq!(pool.peer(&key(100)), None);
}

#[test]
fn offline_pools_give_nothing() {
    let mut pool = Pool::new(&config(), 1);
    assert!(matches!(pool.get_internal(&request(1, false)), Err(Error::Offline)));
    assert!(!pool.available());
}

#[test]
fn broken_connections_make_a_pool_unhealthy() {
    let mut pool = pool(1);
    pool.inner.idle_connections.push(server(5));
    let mut conn = pool.get_internal(&request(1, false)).unwrap().server.unwrap();
    conn.stats.state = State::Error;
    let result = pool.checkin(conn, now()).unwrap();
    assert!(result.server_error);
    assert!(!pool.healthy());
    assert_eq!(pool.inner.total(), 0);
    assert!(matches!(
        pool.checkin(server(9), now()),
        Err(Error::UntrackedConnCheckin(_))
    ));
}

#[test]
fn health_checks_decide() {
    let mut pool = pool(1);
    match pool.maybe_healthcheck(server(1), Err(Error::HealthcheckError)) {
        Checked::Retry(conn) => {
            assert_eq!(conn.disconnect_reason, Some(DisconnectReason::Unhealthy))
        }
        _ => panic!("another connection is tried"),
    }
    assert!(!pool.healthy());
    assert!(matches!(pool.maybe_healthcheck(server(1), Ok(())), Checked::Serve(_)));
    assert!(pool.healthy());
    assert!(matches!(
        pool.maybe_healthcheck(server(1), Err(Error::HealthcheckTimeout)),
        Checked::GiveUp(_, Error::HealthcheckTimeout)
    ));
    assert!(matches!(pool.get(GetOutcome::TimedOut), Err(Error::CheckoutTimeout)));
    assert!(matches!(
        pool.get(GetOutcome::Failed(Error::ServerError)),
        Err(Error::ServerError)
    ));
    assert!(!pool.healthy());
    assert!(pool.get(GetOutcome::Connected(server(1))).is_ok());
}

#[test]
fn pools_are_paused_and_shut_down() {
    let mut pool = pool(1);
    pool.inner.idle_connections.push(server(5));
    assert_eq!(pool.pause().len(), 1);
    assert!(pool.inner.paused);
    assert_eq!(pool.inner.idle(), 0);
    pool.resume();
    assert!(!pool.inner.paused);

    let (tx, mut rx) = channel();
    pool.inner.waiting.push_back(Waiter { request: request(1, false), tx });
    pool.inner.idle_connections.push(server(6));
    assert_eq!(pool.shutdown().len(), 1);
    assert!(!pool.inner.online);
    assert_eq!(rx.try_recv().unwrap().unwrap_err(), Error::Offline);
}

#[test]
fn test_move_conns_to() {
    let mut source = pool(1);
    let mut destination = Pool::new(&config(), 2);
    assert!(source.can_move_conns_to(&destination));
    source.inner.idle_connections.push(server(5));
    source.inner.idle_connections.push(server(6));
    let conn = source.get_internal(&request(1, false)).unwrap().server.unwrap();
    source.move_conns_to(&mut destination, now()).unwrap();

    assert!(!source.inner.online);
    assert_eq!(source.inner.total(), 0);
    assert_eq!(source.checked_out_count(), 0);
    assert_eq!(destination.inner.idle(), 1);
    assert_eq!(destination.inner.checked_out(), 1);
    assert_eq!(destination.checked_out_count(), 1);
    assert_eq!(destination.inner.idle_connections[0].stats.pool_id, 2);

    // The old pool sends the connection on.
    let forward = source.checkin(conn, now()).unwrap().forward.unwrap();
    assert_eq!(forward.pool, 2);
    assert!(!destination.inner.online);
    assert!(destination.checkin_moved(forward).unwrap().closed.is_none());
    assert_eq!(destination.inner.idle(), 2);
    assert_eq!(destination.inner.checked_out(), 0);
}

#[test]
fn idle_transactions_are_found() {
    let mut pool = pool(1);
    let mut busy = server(1);
    busy.in_transaction = true;
    pool.inner.idle_connections.push(busy);
    pool.inner.idle_connections.push(server(2));
    let found = pool.inner.take_idle_in_transaction();
    assert_eq!(found.len(), 1);
    assert_eq!(*found[0].id(), key(1));
    assert_eq!(pool.inner.idle(), 1);
}

#[test]
fn settings_become_options() {
    let mut config = config();
    config.config.statement_timeout = Some(Duration::from_millis(250));
    config.config.replication_mode = true;
    config.config.read_only = true;
    config.config.prepared_statements_level = PreparedStatements::Full;
    let pool = Pool::new(&config, 7);
    let options = pool.server_options();
    assert_eq!(options.pool_id, 7);
    let find = |name: &str| {
        options.params.iter().find(|p| p.name == name).map(|p| p.value.as_str())
    };
    assert_eq!(find("statement_timeout"), Some("250"));
    assert_eq!(find("replication"), Some("database"));
    assert_eq!(find("default_transaction_read_only"), Some("on"));
    assert!(options.replication_mode());
}

#[test]
fn shards_hold_a_primary_and_replicas() {
    let primary = Some(config());
    let mut replica = config();
    replica.address.configured_role = Role::Replica;
    let replicas = vec![replica];
    let settings = |primary, replicas| ShardConfig {
        number: 3,
        primary,
        replicas,
        lb_strategy: Default::default(),
        rw_split: Default::default(),
        lsn_check_interval: Duration::from_secs(1),
        pub_sub_enabled: false,
    };
    let mut shard = Shard::new(settings(&primary, &replicas), 10);
    assert_eq!(shard.number(), 3);
    assert!(shard.has_primary());
    assert!(shard.has_replicas());
    assert_eq!(shard.lb.targets[0].pool.id(), 11);
    assert_eq!(shard.lb.targets[1].pool.id(), 10);
    assert!(!shard.online());
    shard.lb.launch();
    assert!(shard.online());
    assert!(shard.shutdown().is_empty());

    let none = None;
    let shard = Shard::new(settings(&none, &replicas), 10);
    assert!(!shard.has_primary());
    assert!(shard.has_replicas());
}

fn small_pool(max: usize, min: usize) -> Pool {
    let mut config = config();
    config.config.max = max;
    config.config.min = min;
    Pool::new(&config, 1)
}

#[test]
fn test_pool_checkout() {
    let mut pool = small_pool(1, 1);
    pool.launch();
    pool.inner.put(server(5), now()).unwrap();
    let conn = pool.get_internal(&request(1, false)).unwrap().server.unwrap();
    let id = *conn.id();
    assert!(conn.done());
    assert!(!conn.in_transaction());
    assert!(!conn.error());
    assert_eq!(pool.inner.idle(), 0);
    assert_eq!(pool.inner.total(), 1);
    assert_eq!(pool.inner.should_create(), ShouldCreate::No);

    assert!(pool.get_internal(&request(2, false)).unwrap().server.is_none());
    assert_eq!(pool.inner.total(), 1);
    assert_eq!(pool.inner.idle(), 0);

    pool.checkin(conn, now()).unwrap();
    let conn = pool.get_internal(&request(3, false)).unwrap().server.unwrap();
    assert_eq!(*conn.id(), id);
}

#[test]
fn test_concurrency() {
    let mut pool = small_pool(1, 1);
    pool.launch();
    let mut waiting = vec![];
    for n in 0..1000 {
        let (tx, rx) = channel();
        pool.inner.waiting.push_back(Waiter { request: request(n, false), tx });
        waiting.push(rx);
    }
    pool.inner.put(server(5000), now()).unwrap();
    for mut rx in waiting {
        let conn = rx.try_recv().unwrap().unwrap();
        assert_eq!(*conn.id(), key(5000));
        pool.checkin(conn, now()).unwrap();
    }
    assert_eq!(pool.inner.total(), 1);
    assert_eq!(pool.inner.idle(), 1);
}

#[test]
fn test_offline() {
    let mut pool = small_pool(1, 1);
    pool.launch();
    assert!(pool.inner.online);
    pool.shutdown();
    assert!(!pool.inner.online);
    assert!(matches!(pool.get_internal(&request(1, false)), Err(Error::Offline)));
}

#[test]
fn test_force_close() {
    let mut pool = small_pool(1, 1);
    pool.launch();
    pool.inner.put(server(5), now()).unwrap();
    let mut conn = pool.get_internal(&request(1, false)).unwrap().server.unwrap();
    conn.in_transaction = true;
    conn.stats_mut().state(State::ForceClose);
    pool.checkin(conn, now()).unwrap();
    assert_eq!(pool.inner.force_close, 1);
}

#[test]
fn test_server_force_close_discards_connection() {
    let mut pool = small_pool(1, 0);
    pool.launch();
    pool.inner.put(server(5), now()).unwrap();
    let mut conn = pool.get_internal(&request(1, false)).unwrap().server.unwrap();
    conn.in_transaction = true;
    assert_eq!(pool.inner.total(), 1);
    assert_eq!(pool.inner.idle(), 0);
    assert_eq!(pool.inner.checked_out(), 1);
    conn.stats_mut().state(State::ForceClose);
    let result = pool.checkin(conn, now()).unwrap();
    assert_eq!(
        result.closed.unwrap().disconnect_reason,
        Some(DisconnectReason::ForceClose)
    );
    assert_eq!(pool.inner.force_close, 1);
    assert_eq!(pool.inner.idle(), 0);
    assert_eq!(pool.inner.total(), 0);
}

#[test]
fn test_checkout_timeout() {
    let mut pool = small_pool(1, 1);
    pool.launch();
    pool.inner.put(server(5), now()).unwrap();
    let _conn = pool.get_internal(&request(1, false)).unwrap().server.unwrap();
    assert!(pool.get_internal(&request(2, false)).unwrap().server.is_none());
    let (tx, _rx) = channel();
    pool.inner.waiting.push_back(Waiter { request: request(2, false), tx });
    pool.inner.remove_waiter(&key(2));
    assert_eq!(pool.get(GetOutcome::TimedOut).unwrap_err(), Error::CheckoutTimeout);
    assert!(pool.inner.waiting.is_empty());
}

#[test]
fn test_move_conns_all_idle() {
    let mut source = small_pool(3, 0);
    source.launch();
    let mut destination = Pool::new(&config(), 2);
    for n in 1..4 {
        source.inner.put(server(n), now()).unwrap();
    }
    assert_eq!(source.inner.idle(), 3);
    source.move_conns_to(&mut destination, now()).unwrap();
    assert_eq!(source.inner.total(), 0);
    assert_eq!(destination.inner.idle(), 3);
    assert_eq!(destination.inner.checked_out(), 0);
    for conn in destination.inner.idle_conns() {
        assert_eq!(conn.stats().pool_id(), destination.id());
    }
}

#[test]
fn test_move_conns_all_checked_out() {
    let mut source = small_pool(3, 0);
    source.launch();
    let mut destination = Pool::new(&config(), 2);
    let mut out = vec![];
    for n in 1..4 {
        source.inner.put(server(n), now()).unwrap();
        out.push(source.get_internal(&request(100 + n, false)).unwrap().server.unwrap());
    }
    assert_eq!(source.inner.checked_out(), 3);
    assert_eq!(source.inner.idle(), 0);
    source.move_conns_to(&mut destination, now()).unwrap();
    assert_eq!(source.inner.total(), 0);
    assert_eq!(destination.inner.total(), 3);
    assert_eq!(destination.inner.checked_out(), 3);
    assert_eq!(destination.inner.idle(), 0);
    for (n, conn) in out.into_iter().enumerate() {
        let result = source.checkin(conn, now()).unwrap();
        assert!(!result.replenish);
        destination.checkin_moved(result.forward.unwrap()).unwrap();
        assert_eq!(destination.inner.idle(), n + 1);
        assert_eq!(destination.inner.checked_out(), 2 - n);
    }
}

#[test]
fn test_move_conns_destination_serves_after_launch() {
    let mut source = small_pool(3, 0);
    source.launch();
    let mut destination = Pool::new(&config(), 2);
    source.inner.put(server(1), now()).unwrap();
    source.move_conns_to(&mut destination, now()).unwrap();
    assert_eq!(destination.inner.idle(), 1);
    assert!(!destination.inner.online);
    destination.launch();
    assert!(destination.inner.online);
    let conn = destination.get_internal(&request(1, false)).unwrap().server.unwrap();
    assert_eq!(destination.inner.checked_out(), 1);
    assert_eq!(destination.inner.idle(), 0);
    destination.checkin(conn, now()).unwrap();
    assert_eq!(destination.inner.idle(), 1);
}

#[test]
fn what_happened_on_a_moved_connection_counts_once() {
    let mut source = small_pool(3, 0);
    source.launch();
    let mut destination = Pool::new(&config(), 2);
    source.inner.put(server(1), now()).unwrap();
    let mut conn = source.get_internal(&request(1, false)).unwrap().server.unwrap();
    conn.stats_mut().query();
    conn.stats_mut().query();
    source.move_conns_to(&mut destination, now()).unwrap();
    let forward = source.checkin(conn, now()).unwrap().forward.unwrap();
    destination.checkin_moved(forward).unwrap();
    assert_eq!(source.inner.counts.query_count, 0);
    assert_eq!(destination.inner.counts.query_count, 2);
}

#[test]
fn announced_settings_are_kept() {
    let mut pool = small_pool(1, 0);
    assert!(pool.params().is_none());
    let mut first = Parameters::new();
    first.insert("server_version".to_string(), "17".to_string());
    let mut second = Parameters::new();
    second.insert("server_version".to_string(), "18".to_string());
    pool.init_params(first);
    pool.init_params(second);
    assert_eq!(pool.params().unwrap().get("server_version"), Some("17"));
}

#[test]
fn limits_can_be_changed() {
    let mut pool = small_pool(1, 0);
    pool.update_config(Config { max: 7, min: 2, ..Config::default() });
    assert_eq!(pool.inner.max(), 7);
    assert_eq!(pool.inner.min(), 2);
    assert_eq!(pool.config().max, 1);
}

#[test]
fn connections_are_checked_once_the_last_check_is_too_old() {
    let mut pool = pool(1);
    pool.config.healthcheck_interval = Duration::from_secs(30);
    let mut conn = server(5);
    conn.healthcheck(now());
    let later = |secs: u64| now().later(Duration::from_secs(secs));
    assert!(!pool.needs_healthcheck(&conn, now()));
    assert!(!pool.needs_healthcheck(&conn, later(29)));
    assert!(pool.needs_healthcheck(&conn, later(30)));
    pool.config.healthcheck_interval = Duration::from_secs(0);
    assert!(pool.needs_healthcheck(&conn, now()));
}

#[test]
fn clients_that_wait_are_told_that_the_pool_is_offline() {
    let mut pool = pool(1);
    pool.inner.idle_connections.push(server(5));
    let (tx, mut rx) = channel();
    pool.inner.waiting.push_back(Waiter { request: request(1, true), tx });
    pool.inner.waiting.push_back(Waiter { request: request(2, true), tx: channel().0 });
    let (closed, refusals) = pool.go_offline();
    assert_eq!(closed.len(), 1);
    assert!(!pool.inner.online);
    let ids: Vec<_> = refusals.iter().map(|(waiter, _)| waiter.request.id).collect();
    assert_eq!(ids, vec![key(1), key(2)]);
    assert!(refusals.iter().all(|(_, sent)| matches!(sent, Err(Error::Offline))));
    assert!(rx.try_recv().is_err());

    let (tx, mut rx) = channel();
    pool.inner.waiting.push_back(Waiter { request: request(3, true), tx });
    assert!(pool.shutdown().is_empty());
    assert!(matches!(rx.try_recv(), Ok(Err(Error::Offline))));
}
