//! Clusters, their shards, and the connections of a client.

use pgdog::config::database::{LoadBalancingStrategy, ReadWriteSplit, Role};
use pgdog::config::general::{
    Exposure, LoadSchema, MirrorConfig, MirroringLevel, MultiTenant, PoolerMode,
    PreparedStatements, QueryParserLevel, RewriteMode,
};
use pgdog::config::loaded::ConfigAndUsers;
use pgdog::config::sharding::{OmnishardedTable, ShardedSchema, ShardedTable};
use pgdog::config::users::{PasswordKind, User};
use pgdog::net::{BackendKeyData, Parameter};
use pgdog::pool::cluster::{
    Cluster, ClusterConfig, ClusterHandle, ClusterShardConfig, SchemaAction, SchemaLoad,
    ShardedSchemas, ShardedTables,
};
use pgdog::pool::config::{Address, Config, PoolConfig};
use pgdog::pool::connection::{
    Binding, ConnectAction, Connection, Guard, MirrorTarget, NotifyAction, ReloadAction,
    RequestPlan, Route, RouteShard, Source,
};
use pgdog::pool::error::Error as PoolError;
use pgdog::server::connection::Server;
use pgdog::server::error::Error;
use pgdog::server::stats::State;
use pgdog::time::{Duration, Instant};

fn test_address(role: Role) -> Address {
    Address {
        host: "127.0.0.1".to_string(),
        port: 5432,
        user: "pgdog".to_string(),
        passwords: vec!["pgdog".to_string()],
        database_name: "pgdog".to_string(),
        configured_role: role,
        ..Default::default()
    }
}

fn test_pool(role: Role) -> PoolConfig {
    PoolConfig { address: test_address(role), config: Config::default() }
}

fn sharded_table(name: &str) -> ShardedTable {
    ShardedTable {
        database: "pgdog".to_string(),
        name: Some(name.to_string()),
        schema: None,
        column: "id".to_string(),
    }
}

fn sharded_schema(name: &str, shard: usize) -> ShardedSchema {
    ShardedSchema { database: "pgdog".to_string(), name: Some(name.to_string()), shard }
}

fn make(config: &ConfigAndUsers, shards: &Vec<ClusterShardConfig>, first_id: u64) -> Cluster {
    let user = User {
        name: "pgdog".to_string(),
        database: "pgdog".to_string(),
        password: Some("pgdog".to_string()),
        ..Default::default()
    };
    let tables = ShardedTables {
        tables: vec![
            sharded_table("sharded"),
            sharded_table("posts"),
            sharded_table("full_dup_rows"),
        ],
        omnisharded: vec![
            OmnishardedTable { name: "sharded_omni".to_string(), sticky_routing: false },
            OmnishardedTable { name: "sharded_omni_sticky".to_string(), sticky_routing: true },
        ],
    };
    let schemas =
        ShardedSchemas { schemas: vec![sharded_schema("shard_0", 0), sharded_schema("shard_1", 1)] };
    Cluster::new(ClusterConfig::new(&config.config, &user, shards, tables, schemas), first_id)
}

fn shard_config(replicas: usize) -> ClusterShardConfig {
    ClusterShardConfig {
        primary: Some(test_pool(Role::Primary)),
        replicas: (0..replicas).map(|_| test_pool(Role::Replica)).collect(),
    }
}

fn new_test(config: &ConfigAndUsers) -> Cluster {
    make(config, &vec![shard_config(1), shard_config(1)], 1)
}

fn new_test_single_shard(config: &ConfigAndUsers) -> Cluster {
    let mut cluster = new_test(config);
    cluster.shards.pop();
    cluster
}

fn new_test_single_primary(config: &ConfigAndUsers) -> Cluster {
    make(config, &vec![shard_config(0)], 1)
}

fn tenants() -> MultiTenant {
    MultiTenant { column: "tenant_id".to_string() }
}

#[test]
fn test_load_schema_multiple_shards_empty_schemas_with_tables() {
    let mut cluster = new_test(&ConfigAndUsers::default());
    cluster.sharded_schemas = ShardedSchemas::default();
    assert!(cluster.load_schema());
}

#[test]
fn test_load_schema_multiple_shards_with_schemas() {
    let cluster = new_test(&ConfigAndUsers::default());
    assert!(cluster.load_schema());
}

#[test]
fn test_load_schema_multiple_shards_empty_tables() {
    let mut cluster = new_test(&ConfigAndUsers::default());
    cluster.sharded_schemas = ShardedSchemas::default();
    cluster.sharded_tables = ShardedTables::default();
    assert!(cluster.load_schema());
}

#[test]
fn test_load_schema_single_shard() {
    let mut cluster = new_test_single_shard(&ConfigAndUsers::default());
    cluster.sharded_schemas = ShardedSchemas::default();
    assert!(!cluster.load_schema());
}

#[test]
fn test_load_schema_with_multi_tenant() {
    let mut cluster = new_test_single_shard(&ConfigAndUsers::default());
    cluster.multi_tenant = Some(tenants());
    assert!(cluster.load_schema());
}

#[test]
fn test_load_schema_multi_tenant_overrides_other_conditions() {
    let mut cluster = new_test(&ConfigAndUsers::default());
    cluster.sharded_tables = ShardedTables::default();
    cluster.multi_tenant = Some(tenants());
    assert!(cluster.load_schema());
}

#[test]
fn test_use_query_parser_set() {
    // The session-control matcher asks for `SET` to be parsed.
    let mut cluster = new_test(&ConfigAndUsers::default());
    for level in [QueryParserLevel::Auto, QueryParserLevel::On] {
        cluster.query_parser = level;
        assert!(cluster.use_query_parser(true));
    }
    cluster.query_parser = QueryParserLevel::Off;
    assert!(!cluster.use_query_parser(true));

    let mut cluster = new_test_single_primary(&ConfigAndUsers::default());
    for level in [QueryParserLevel::Auto, QueryParserLevel::On] {
        cluster.query_parser = level;
        assert!(cluster.use_query_parser(true));
    }
    cluster.query_parser = QueryParserLevel::Off;
    assert!(!cluster.use_query_parser(true));
}

#[test]
fn queries_are_parsed_for_a_reason() {
    let mut cluster = new_test_single_primary(&ConfigAndUsers::default());
    assert!(cluster.write_only());
    assert!(!cluster.read_only());
    assert!(!cluster.router_needed());
    assert!(!cluster.use_query_parser(false));
    cluster.dry_run = true;
    assert!(cluster.use_query_parser(false));
    cluster.dry_run = false;
    cluster.prepared_statements = PreparedStatements::Full;
    assert!(cluster.use_query_parser(false));
    cluster.prepared_statements = PreparedStatements::Extended;
    cluster.pub_sub_channel_size = 1;
    assert!(cluster.use_query_parser(false));
    cluster.query_parser = QueryParserLevel::SessionControl;
    assert!(!cluster.use_query_parser(false));

    let cluster = new_test(&ConfigAndUsers::default());
    assert!(cluster.router_needed());
    assert!(cluster.use_query_parser(false));
}

#[test]
fn test_launch_sets_online() {
    let mut cluster = new_test(&ConfigAndUsers::default());
    assert!(!cluster.online());
    let load = cluster.launch();
    assert!(cluster.online());
    assert_eq!(load, vec![0, 1]);
    assert!(!cluster.schema_ready());
}

#[test]
fn test_shutdown_sets_offline() {
    let mut cluster = new_test(&ConfigAndUsers::default());
    cluster.launch();
    assert!(cluster.online());
    cluster.shards[1].lb.targets[0].pool.inner.idle_connections.push(Box::new(Server::default()));
    let closed = cluster.shutdown();
    assert!(!cluster.online());
    assert_eq!(closed.len(), 1);
}

#[test]
fn test_wait_schema_loaded_returns_immediately_when_not_needed() {
    let mut cluster = new_test_single_shard(&ConfigAndUsers::default());
    assert!(!cluster.load_schema());
    assert!(cluster.schema_ready());
    assert!(cluster.launch().is_empty());
    assert!(cluster.shards[0].schema_ready);
}

#[test]
fn test_wait_schema_loaded_fast_path_when_already_loaded() {
    let mut cluster = new_test(&ConfigAndUsers::default());
    assert!(!cluster.schema_ready());
    for shard in 0..2 {
        cluster.shards[shard].schema_not_needed();
    }
    assert!(cluster.schema_ready());
}

#[test]
fn schemas_are_loaded_until_it_works() {
    assert_eq!(Cluster::schema_loaded(SchemaLoad::Loaded, true), SchemaAction::Announce);
    assert_eq!(Cluster::schema_loaded(SchemaLoad::AlreadyLoaded, true), SchemaAction::Finish);
    assert_eq!(
        Cluster::schema_loaded(SchemaLoad::Failed, true),
        SchemaAction::RetryAfter(Duration::from_millis(100))
    );
    assert_eq!(Cluster::schema_loaded(SchemaLoad::Failed, false), SchemaAction::Abandon);
    let mut cluster = new_test(&ConfigAndUsers::default());
    assert!(cluster.reload_schema());
    cluster.load_schema = LoadSchema::Off;
    assert!(!cluster.reload_schema());
}

#[test]
fn two_phase_commit_needs_shards() {
    let mut config = ConfigAndUsers::default();
    config.config.general.two_phase_commit = true;
    config.config.general.two_phase_commit_auto = Some(true);
    let cluster = new_test(&config);
    assert!(cluster.two_pc_enabled());
    assert!(cluster.two_pc_auto_enabled());
    let cluster = new_test_single_primary(&config);
    assert!(!cluster.two_pc_enabled());
    assert!(!cluster.two_pc_auto_enabled());

    config.config.general.two_phase_commit = false;
    let cluster = new_test(&config);
    assert!(!cluster.two_pc_auto_enabled());
}

#[test]
fn pools_are_numbered_through() {
    let cluster = new_test(&ConfigAndUsers::default());
    assert_eq!(cluster.user(), "pgdog");
    assert_eq!(cluster.name(), "pgdog");
    let mut ids = vec![];
    for shard in cluster.shards() {
        for target in &shard.lb.targets {
            ids.push(target.pool.id());
        }
    }
    // Within a shard the primary has the first number and the last place.
    assert_eq!(ids, vec![2, 1, 4, 3]);
    assert_eq!(cluster.resharding_copy_retry_min_delay().as_millis(), 1_000);
}

#[test]
fn user_settings_come_first() {
    let mut config = ConfigAndUsers::default();
    config.config.general.cross_shard_disabled = false;
    let user = User {
        name: "u".to_string(),
        database: "d".to_string(),
        cross_shard_disabled: Some(true),
        pooler_mode: Some(PoolerMode::Session),
        ..Default::default()
    };
    let shards = vec![];
    let settings = ClusterConfig::new(
        &config.config,
        &user,
        &shards,
        ShardedTables::default(),
        ShardedSchemas::default(),
    );
    assert!(settings.cross_shard_disabled);
    assert_eq!(settings.pooler_mode, PoolerMode::Session);
    let mut shard = shard_config(0);
    if let Some(primary) = &mut shard.primary {
        primary.config.pooler_mode = PoolerMode::Statement;
    }
    assert_eq!(shard.pooler_mode(), PoolerMode::Statement);
}

#[test]
fn streams_are_sent_as_they_are() {
    let mut config = ConfigAndUsers::default();
    config.config.rewrite.enabled = true;
    config.config.rewrite.shard_key = RewriteMode::Rewrite;
    let cluster = new_test(&config).logical_stream();
    assert!(!cluster.rewrite().enabled);
    assert_eq!(cluster.rewrite().shard_key, RewriteMode::Ignore);
    assert_eq!(cluster.rewrite().split_inserts, RewriteMode::Ignore);
    let schema = cluster.sharding_schema();
    assert_eq!(schema.shards, 2);
    assert_eq!(schema.tables().tables().len(), 3);
    assert_eq!(schema.schemas.schemas.len(), 2);
}

#[test]
fn shards_are_looked_up() {
    let mut cluster = new_test(&ConfigAndUsers::default());
    assert_eq!(cluster.shard(1).unwrap().number(), 1);
    assert!(matches!(cluster.shard(2), Err(PoolError::NoShard(2))));
    assert_eq!(cluster.primary(0).unwrap(), 1);
    assert!(matches!(cluster.primary(2), Err(PoolError::NoShard(2))));
    assert_eq!(cluster.any_read(0).unwrap(), vec![0, 1]);
    assert_eq!(cluster.replica(0).unwrap(), vec![0, 1]);
    assert!(matches!(cluster.replica(9), Err(PoolError::NoShard(9))));
    let tables = &cluster.sharded_tables;
    assert_eq!(
        tables.get_table("any", "posts", "id").unwrap().name,
        Some("posts".to_string())
    );
    assert!(tables.get_table("any", "posts", "name").is_none());
}

#[test]
fn clusters_over_the_same_servers_can_be_swapped() {
    let mut a = new_test(&ConfigAndUsers::default());
    let mut b = make(&ConfigAndUsers::default(), &vec![shard_config(1), shard_config(1)], 100);
    assert!(a.can_move_conns_to(&b));
    assert!(!a.can_move_conns_to(&new_test_single_primary(&ConfigAndUsers::default())));
    a.shards[0].lb.targets[0].pool.inner.idle_connections.push(Box::new(Server::default()));
    a.move_conns_to(&mut b, Instant::default()).unwrap();
    assert_eq!(a.shards[0].lb.targets[0].pool.inner.total(), 0);
    assert_eq!(b.shards[0].lb.targets[0].pool.inner.total(), 1);
}

fn guard(pid: i32) -> Guard {
    let mut server = Server::default();
    server.id = BackendKeyData { pid, secret: 0 };
    Guard { server: Box::new(server), pool: 1, reset: false }
}

fn route(shard: RouteShard) -> Route {
    Route { shard, read: false, any_target: false, prefer_primary: false }
}

fn handle(mode: PoolerMode) -> ClusterHandle {
    let mut handle = new_test(&ConfigAndUsers::default()).handle();
    handle.pooler_mode = mode;
    handle.passwords = vec![
        PasswordKind::Plain("one".to_string()),
        PasswordKind::Hashed("SCRAM".to_string()),
        PasswordKind::Plain("two".to_string()),
    ];
    handle
}

fn client(mode: PoolerMode) -> Connection {
    Connection::new("pgdog", "pgdog", false, Ok(handle(mode)), Ok(vec![])).unwrap()
}

fn pids(guards: &Vec<Guard>) -> Vec<i32> {
    guards.iter().map(|g| g.server.id().pid).collect()
}

#[test]
fn requests_go_to_the_right_servers() {
    let mut r = route(RouteShard::All);
    assert_eq!(r.source(), Source::Primary);
    r.read = true;
    assert_eq!(r.source(), Source::Replica);
    r.prefer_primary = true;
    assert_eq!(r.source(), Source::PreferredRead);
    r.any_target = true;
    assert_eq!(r.source(), Source::AnyRead);

    let conn = client(PoolerMode::Transaction);
    assert_eq!(conn.shards_needed(&route(RouteShard::Direct(1))).unwrap(), vec![1]);
    assert_eq!(conn.shards_needed(&route(RouteShard::All)).unwrap(), vec![0, 1]);
    assert_eq!(conn.shards_needed(&route(RouteShard::Multi(vec![1, 5]))).unwrap(), vec![1]);
    assert!(matches!(
        conn.shards_needed(&route(RouteShard::Direct(2))),
        Err(Error::Pool(PoolError::NoShard(2)))
    ));
}

#[test]
fn clients_are_bound_and_rebound() {
    let mut conn = client(PoolerMode::Transaction);
    assert!(conn.needs_connect());
    assert!(matches!(conn.addr(), Err(Error::NotConnected)));
    let back = conn.try_conn(&route(RouteShard::Direct(0)), vec![0], vec![guard(1)]);
    assert!(back.is_empty());
    assert!(!conn.needs_connect());
    assert_eq!(conn.addr().unwrap().len(), 1);
    assert!(matches!(conn.connect(Ok(()), false), ConnectAction::Finish));

    let back = conn.try_conn(&route(RouteShard::All), vec![0, 1], vec![guard(2), guard(3)]);
    assert_eq!(pids(&back), vec![1]);
    let back = conn.try_conn(&route(RouteShard::Direct(0)), vec![0], vec![guard(4)]);
    assert_eq!(pids(&back), vec![2, 3]);
    match &conn.binding {
        Binding::Direct(Some(guard)) => assert!(!guard.reset),
        _ => panic!("the client is bound to one server"),
    }

    let mut conn = client(PoolerMode::Session);
    assert!(conn.session_mode());
    conn.try_conn(&route(RouteShard::Direct(0)), vec![0], vec![guard(1)]);
    match &conn.binding {
        Binding::Direct(Some(guard)) => assert!(guard.reset),
        _ => panic!("the client is bound to one server"),
    }
}

#[test]
fn connecting_is_tried_twice_at_most() {
    let mut conn = client(PoolerMode::Transaction);
    let offline = || Err(Error::Pool(PoolError::Offline));
    assert!(matches!(conn.connect(offline(), false), ConnectAction::Reload { wait: true }));
    assert!(matches!(conn.connect(offline(), true), ConnectAction::Fail(_)));
    let down = Err(Error::Pool(PoolError::AllReplicasDown));
    assert!(matches!(conn.connect(down, false), ConnectAction::Reload { wait: true }));
    let unavailable = Err(Error::Pool(PoolError::PreferredReadUnavailable));
    assert!(matches!(conn.connect(unavailable, false), ConnectAction::Reload { wait: false }));
    let timeout = Err(Error::Pool(PoolError::CheckoutTimeout));
    assert!(matches!(conn.connect(timeout, false), ConnectAction::Fail(_)));

    let mut busy = guard(1);
    busy.server.stats.state = State::Active;
    conn.try_conn(&route(RouteShard::Direct(0)), vec![0], vec![busy]);
    assert!(matches!(conn.connect(Ok(()), false), ConnectAction::Fail(Error::NotInSync)));
    assert!(matches!(conn.connect(Ok(()), true), ConnectAction::Finish));

    assert!(matches!(
        Connection::parameters(Err(Error::Pool(PoolError::AllReplicasDown)), false),
        ConnectAction::Reload { wait: true }
    ));
    assert!(matches!(
        Connection::parameters(Err(Error::Pool(PoolError::AllReplicasDown)), true),
        ConnectAction::Fail(_)
    ));
    assert!(matches!(Connection::parameters(Ok(()), false), ConnectAction::Finish));
}

#[test]
fn the_first_answer_counts() {
    let conn = client(PoolerMode::Transaction);
    let answers = vec![None, Some(vec![Parameter::new("a", "1")]), Some(vec![])];
    let params = conn.try_parameters(&answers).unwrap();
    assert_eq!(params.len(), 1);
    assert_eq!(params[0].name, "a");
    assert!(matches!(
        conn.try_parameters(&vec![None]),
        Err(Error::Pool(PoolError::AllReplicasDown))
    ));
}

#[test]
fn notifications_stay_on_one_shard() {
    let conn = client(PoolerMode::Transaction);
    assert_eq!(conn.listen(&RouteShard::Direct(1)).unwrap(), Some(1));
    assert_eq!(conn.listen(&RouteShard::Direct(2)).unwrap(), None);
    assert!(matches!(conn.listen(&RouteShard::All), Err(Error::ProtocolOutOfSync)));
    assert!(matches!(
        Connection::notify(Err(PoolError::Offline), false),
        NotifyAction::Reload { again: true }
    ));
    assert!(matches!(
        Connection::notify(Err(PoolError::Offline), true),
        NotifyAction::Reload { again: false }
    ));
    assert!(matches!(Connection::notify(Ok(()), false), NotifyAction::Finish));
    assert!(matches!(
        Connection::notify(Err(PoolError::PubSubDisabled), false),
        NotifyAction::Fail(Error::Pool(PoolError::PubSubDisabled))
    ));
}

#[test]
fn requests_are_sent_in_parts() {
    let plan = |copy, streaming, rows, parse, needs| {
        Connection::handle_client_request(copy, streaming, rows, parse, needs)
    };
    assert_eq!(plan(true, false, Ok(3), false, false).unwrap(), RequestPlan::CopyRows);
    assert_eq!(plan(true, false, Ok(0), false, false).unwrap(), RequestPlan::Plain);
    assert_eq!(plan(true, true, Ok(3), false, false).unwrap(), RequestPlan::Plain);
    assert!(matches!(
        plan(true, false, Err("bad row".to_string()), false, false),
        Err(Error::Router(_))
    ));
    assert_eq!(plan(false, false, Ok(0), true, true).unwrap(), RequestPlan::PrepareFirst);
    assert_eq!(plan(false, false, Ok(0), true, false).unwrap(), RequestPlan::Plain);
}

#[test]
fn forgotten_users_are_added_again() {
    let conn = client(PoolerMode::Transaction);
    assert!(matches!(conn.safe_reload(true, true), ReloadAction::Fetch));
    assert!(matches!(conn.safe_reload(false, false), ReloadAction::Fetch));
    match conn.safe_reload(true, false) {
        ReloadAction::AddUser(user) => {
            assert_eq!(user.name, "pgdog");
            assert_eq!(user.password, None);
            assert_eq!(user.password_hash, Some("SCRAM".to_string()));
            assert_eq!(user.passwords, vec!["one".to_string(), "two".to_string()]);
        }
        _ => panic!("the user was forgotten"),
    }
}

#[test]
fn the_admin_database_has_no_cluster() {
    let failed = || Err(Error::NoCluster);
    let mut conn = Connection::new("admin", "admin", true, failed(), Ok(vec![])).unwrap();
    assert!(conn.is_admin());
    assert!(conn.done());
    assert!(matches!(conn.cluster(), Err(Error::ClusterNotConnected)));
    assert!(conn.session_mode());
    assert_eq!(conn.pooler_mode(), PoolerMode::Transaction);
    assert!(matches!(conn.safe_reload(true, false), ReloadAction::Finish));
    assert!(conn.reload(failed(), Ok(vec![])).is_ok());
    let back = conn.try_conn(&route(RouteShard::Direct(0)), vec![0], vec![guard(1)]);
    assert_eq!(pids(&back), vec![1]);
    assert!(matches!(
        Connection::new("a", "b", false, failed(), Ok(vec![])),
        Err(Error::NoCluster)
    ));
}

#[test]
fn locked_clients_keep_their_servers() {
    let mut conn = client(PoolerMode::Transaction);
    conn.try_conn(&route(RouteShard::All), vec![0, 1], vec![guard(1), guard(2)]);
    assert!(conn.done());
    conn.lock(true);
    assert!(conn.locked());
    assert!(!conn.done());
    match &conn.binding {
        Binding::MultiShard(guards, _) => assert!(guards.iter().all(|g| g.server.dirty())),
        _ => panic!("the client is bound to two servers"),
    }
    conn.lock(false);
    assert!(conn.done());
}

#[test]
fn mirrors_are_taken_over() {
    let mut conn = client(PoolerMode::Transaction);
    let mirror = MirrorTarget {
        destination: "copy".to_string(),
        config: MirrorConfig {
            queue_length: 128,
            exposure: Exposure { bits: 0 },
            level: MirroringLevel::All,
        },
    };
    conn.reload(Ok(handle(PoolerMode::Session)), Ok(vec![mirror])).unwrap();
    assert_eq!(conn.mirrors.len(), 1);
    assert_eq!(conn.pooler_mode(), PoolerMode::Session);
    let failed = conn.reload(Ok(handle(PoolerMode::Transaction)), Err(Error::NoCluster));
    assert!(failed.is_err());
    assert_eq!(conn.mirrors.len(), 1);
    assert_eq!(conn.pooler_mode(), PoolerMode::Transaction);
}

#[test]
fn strategies_reach_the_load_balancer() {
    let mut config = ConfigAndUsers::default();
    config.config.general.load_balancing_strategy = LoadBalancingStrategy::RoundRobin;
    config.config.general.read_write_split = ReadWriteSplit::ExcludePrimary;
    let cluster = new_test(&config);
    assert_eq!(cluster.shards[0].lb.lb_strategy, LoadBalancingStrategy::RoundRobin);
    assert_eq!(cluster.shards[0].lb.rw_split, ReadWriteSplit::ExcludePrimary);
    assert_eq!(cluster.read_write_split(), ReadWriteSplit::ExcludePrimary);
}

#[test]
fn test_launch_schema_loading_idempotent() {
    let config = ConfigAndUsers::default();
    let mut cluster = new_test(&config);
    cluster.sharded_schemas = ShardedSchemas::default();
    assert!(cluster.load_schema());
    for shard in &mut cluster.shards {
        shard.schema_not_needed();
    }
    cluster.launch();
    assert!(cluster.schema_ready());
    cluster.launch();
    assert!(cluster.schema_ready());
}

#[test]
fn test_wait_schema_loaded_waits_for_notification() {
    let config = ConfigAndUsers::default();
    let mut cluster = new_test(&config);
    cluster.sharded_schemas = ShardedSchemas::default();
    assert!(cluster.load_schema());
    assert!(!cluster.schema_ready());
    for shard in &mut cluster.shards {
        shard.schema_not_needed();
    }
    assert!(cluster.schema_ready());
}

#[test]
fn schema_admins_can_be_made() {
    let config = ConfigAndUsers::default();
    let mut cluster = new_test(&config);
    assert!(!cluster.schema_admin());
    cluster.toggle_schema_admin(true);
    assert!(cluster.schema_admin());
    cluster.toggle_schema_admin(false);
    assert!(!cluster.schema_admin());
}

#[test]
fn waiting_too_long_says_for_which_server() {
    assert!(matches!(Source::Primary.timed_out(), Some(PoolError::CheckoutTimeout)));
    assert!(matches!(Source::Replica.timed_out(), Some(PoolError::ReplicaCheckoutTimeout)));
    assert!(Source::AnyRead.timed_out().is_none());
    assert!(Source::PreferredRead.timed_out().is_none());
}
