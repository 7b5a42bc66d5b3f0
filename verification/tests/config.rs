//! Configuration: settings, checks and lookups.

use pgdog::config::check::ConfigWarning;
use pgdog::config::database::{
    Database, EnumeratedDatabase, LoadBalancingStrategy, ReadWriteSplit, ReadWriteStrategy, Role,
};
use pgdog::config::general::{
    Exposure, Mirroring, MirroringLevel, PassthroughAuth, PoolerMode, PreparedStatements,
    QueryParserLevel, RewriteMode, SystemCatalogsBehavior, TlsVerifyMode,
};
use pgdog::config::loaded::ConfigAndUsers;
use pgdog::config::settings::Config;
use pgdog::config::sharding::{ManualQuery, OmnishardedTables, ShardedMapping, ShardedTable};
use pgdog::config::users::{Admin, PasswordKind, ServerAuth, User, Users};

fn exposure(value: f32) -> Exposure {
    Exposure { bits: value.to_bits() }
}

fn database(name: &str, host: &str, port: u16, role: Role, shard: usize) -> Database {
    Database {
        name: name.to_string(),
        host: host.to_string(),
        port,
        role,
        shard,
        ..Default::default()
    }
}

fn external_user(server_auth: ServerAuth) -> User {
    User {
        name: "alice".to_string(),
        database: "db".to_string(),
        password: Some("secret".to_string()),
        server_auth,
        ..Default::default()
    }
}

fn check(config: &mut ConfigAndUsers) -> Result<(), pgdog::config::error::Error> {
    let mut warnings: Vec<ConfigWarning> = Vec::new();
    config.check(&mut warnings)
}

fn warnings_of(config: &mut Config) -> Vec<ConfigWarning> {
    let mut warnings: Vec<ConfigWarning> = Vec::new();
    config.check(&mut warnings);
    warnings
}

#[test]
fn test_prepared_statements_disabled_in_session_mode() {
    let mut config = ConfigAndUsers::default();

    config.config.general.pooler_mode = PoolerMode::Transaction;
    config.config.general.prepared_statements = PreparedStatements::Extended;
    assert_eq!(config.prepared_statements(), PreparedStatements::Extended);

    config.config.general.pooler_mode = PoolerMode::Session;
    config.config.general.prepared_statements = PreparedStatements::Extended;
    assert_eq!(config.prepared_statements(), PreparedStatements::Disabled);

    config.config.general.pooler_mode = PoolerMode::Session;
    config.config.general.prepared_statements = PreparedStatements::Full;
    assert_eq!(config.prepared_statements(), PreparedStatements::Disabled);

    config.config.general.pooler_mode = PoolerMode::Transaction;
    config.config.general.prepared_statements = PreparedStatements::Disabled;
    assert_eq!(config.prepared_statements(), PreparedStatements::Disabled);
}

#[test]
fn test_mirroring_config() {
    let mut config = Config::default();
    config.general.mirror_queue = 128;
    config.general.mirror_exposure = exposure(1.0);
    config.databases.push(database("source_db", "127.0.0.1", 5432, Role::Primary, 0));
    config.databases.push(database("destination_db1", "127.0.0.1", 5433, Role::Primary, 0));
    config.databases.push(database("destination_db2", "127.0.0.1", 5434, Role::Primary, 0));
    config.mirroring.push(Mirroring {
        source_db: "source_db".to_string(),
        destination_db: "destination_db1".to_string(),
        queue_length: Some(256),
        exposure: Some(exposure(0.5)),
        level: MirroringLevel::default(),
    });
    config.mirroring.push(Mirroring {
        source_db: "source_db".to_string(),
        destination_db: "destination_db2".to_string(),
        queue_length: None,
        exposure: Some(exposure(0.75)),
        level: MirroringLevel::default(),
    });

    assert_eq!(config.mirroring.len(), 2);
    assert_eq!(config.general.mirror_queue, 128);
    assert_eq!(f32::from_bits(config.general.mirror_exposure.bits), 1.0);

    let mirror_config = config.get_mirroring_config("source_db", "destination_db1").unwrap();
    assert_eq!(mirror_config.queue_length, 256);
    assert_eq!(f32::from_bits(mirror_config.exposure.bits), 0.5);

    let mirror_config2 = config.get_mirroring_config("source_db", "destination_db2").unwrap();
    assert_eq!(mirror_config2.queue_length, 128);
    assert_eq!(f32::from_bits(mirror_config2.exposure.bits), 0.75);

    assert!(config.get_mirroring_config("source_db", "non_existent").is_none());

    // Both lookups agree.
    let by_source = config.mirroring_by_source();
    let mirrors = by_source.get("source_db").unwrap();
    assert_eq!(mirrors.len(), 2);
    assert_eq!(mirrors[0].0, "destination_db1");
    assert_eq!(mirrors[0].1, mirror_config);
    assert_eq!(mirrors[1].0, "destination_db2");
    assert_eq!(mirrors[1].1, mirror_config2);
    assert!(by_source.get("destination_db1").is_none());
}

fn users_admin() -> Admin {
    Admin {
        name: "users_admin".to_string(),
        user: "users_admin_user".to_string(),
        password: "users_admin_password".to_string(),
    }
}

#[test]
fn test_admin_override_from_users_toml() {
    let mut config = Config::default();
    config.admin = Admin {
        name: "pgdog_admin".to_string(),
        user: "pgdog_admin_user".to_string(),
        password: "pgdog_admin_password".to_string(),
    };
    let users = Users { admin: Some(users_admin()), users: vec![] };
    let loaded =
        ConfigAndUsers::load("pgdog.toml", "users.toml", Some(Ok(config)), Some(Ok(users)), "x")
            .unwrap();
    assert_eq!(loaded.config.admin.name, "users_admin");
    assert_eq!(loaded.config.admin.user, "users_admin_user");
    assert_eq!(loaded.config.admin.password, "users_admin_password");
    assert!(loaded.users.admin.is_none());
}

#[test]
fn test_admin_override_with_default_config() {
    let users = Users { admin: Some(users_admin()), users: vec![] };
    let loaded = ConfigAndUsers::load(
        "pgdog.toml",
        "users.toml",
        Some(Ok(Config::default())),
        Some(Ok(users)),
        "generated",
    )
    .unwrap();
    assert_eq!(loaded.config.admin.name, "users_admin");
    assert_eq!(loaded.config.admin.user, "users_admin_user");
    assert_eq!(loaded.config.admin.password, "users_admin_password");
    assert!(loaded.users.admin.is_none());
}

#[test]
fn missing_files_give_defaults_and_bad_files_give_errors() {
    let loaded = ConfigAndUsers::load("a.toml", "b.toml", None, None, "k3y").unwrap();
    assert_eq!(loaded.config.admin.name, "admin");
    assert_eq!(loaded.config.admin.user, "pgdog");
    assert_eq!(loaded.config.admin.password, "k3y");
    assert_eq!(loaded.config_path, "a.toml");
    assert_eq!(loaded.users_path, "b.toml");
    assert!(loaded.users.users.is_empty());

    let bad = pgdog::config::error::Error::ParseError("bad file".to_string());
    let err = ConfigAndUsers::load("a.toml", "b.toml", Some(Err(bad)), None, "x").unwrap_err();
    assert_eq!(err.to_string(), "bad file");
    let bad = pgdog::config::error::Error::ParseError("bad users".to_string());
    let err = ConfigAndUsers::load("a.toml", "b.toml", None, Some(Err(bad)), "x").unwrap_err();
    assert_eq!(err.to_string(), "bad users");
}

fn omnisharded(database: &str, tables: &[&str], sticky: bool) -> OmnishardedTables {
    OmnishardedTables {
        database: database.to_string(),
        tables: tables.iter().map(|t| t.to_string()).collect(),
        sticky,
    }
}

#[test]
fn test_omnisharded_tables() {
    let mut config = Config::default();
    config.general.system_catalogs = SystemCatalogsBehavior::Sharded;
    config.databases.push(database("db1", "127.0.0.1", 5432, Role::Primary, 0));
    config.databases.push(database("db2", "127.0.0.1", 5433, Role::Primary, 0));
    config.omnisharded_tables.push(omnisharded("db1", &["table_a", "table_b"], false));
    config.omnisharded_tables.push(omnisharded("db1", &["table_c"], true));
    config.omnisharded_tables.push(omnisharded("db2", &["table_x"], false));

    assert_eq!(config.omnisharded_tables.len(), 3);
    let tables = config.omnisharded_tables();
    assert_eq!(tables.len(), 2);

    let db1_tables = tables.get("db1").unwrap();
    assert_eq!(db1_tables.len(), 3);
    assert_eq!(db1_tables[0].name, "table_a");
    assert!(!db1_tables[0].sticky_routing);
    assert_eq!(db1_tables[1].name, "table_b");
    assert!(!db1_tables[1].sticky_routing);
    assert_eq!(db1_tables[2].name, "table_c");
    assert!(db1_tables[2].sticky_routing);

    let db2_tables = tables.get("db2").unwrap();
    assert_eq!(db2_tables.len(), 1);
    assert_eq!(db2_tables[0].name, "table_x");
    assert!(!db2_tables[0].sticky_routing);
}

#[test]
fn test_omnisharded_tables_system_catalogs() {
    let mut config = Config::default();
    config.general.system_catalogs = SystemCatalogsBehavior::OmnishardedSticky;
    config.databases.push(database("db1", "127.0.0.1", 5432, Role::Primary, 0));
    config.omnisharded_tables.push(omnisharded("db1", &["my_table"], false));
    let tables = config.omnisharded_tables();
    let db1_tables = tables.get("db1").unwrap();
    assert!(db1_tables.iter().any(|t| t.name == "my_table"));
    assert!(db1_tables.iter().any(|t| t.name == "pg_class"));
    assert!(db1_tables.iter().any(|t| t.name == "pg_attribute"));
    assert!(db1_tables.iter().any(|t| t.name == "pg_namespace"));
    assert!(db1_tables.iter().any(|t| t.name == "pg_type"));
    let pg_class = db1_tables.iter().find(|t| t.name == "pg_class").unwrap();
    assert!(pg_class.sticky_routing);

    config.general.system_catalogs = SystemCatalogsBehavior::Sharded;
    let tables = config.omnisharded_tables();
    let db1_tables = tables.get("db1").unwrap();
    assert_eq!(db1_tables.len(), 1);
    assert_eq!(db1_tables[0].name, "my_table");
    assert!(!db1_tables.iter().any(|t| t.name == "pg_class"));
    assert!(!db1_tables.iter().any(|t| t.name == "pg_attribute"));
}

#[test]
fn test_cutover_swaps_database_configs() {
    let mut config = Config::default();
    config.databases.push(database("source_db", "source-host", 5432, Role::Primary, 0));
    config.databases.push(database("destination_db", "destination-host", 5433, Role::Primary, 0));

    config.cutover("source_db", "destination_db");

    assert_eq!(config.databases.len(), 2);
    let source = config.databases.iter().find(|d| d.name == "source_db").unwrap();
    assert_eq!(source.host, "destination-host");
    assert_eq!(source.port, 5433);
    let destination = config.databases.iter().find(|d| d.name == "destination_db").unwrap();
    assert_eq!(destination.host, "source-host");
    assert_eq!(destination.port, 5432);
}

fn cutover_config(first: &str, second: &str) -> Config {
    let mut config = Config::default();
    for (name, host, port) in
        [(first, "source-host", 5432), (second, "destination-host", 5433)]
    {
        for shard in 0..2 {
            config.databases.push(database(
                name,
                &format!("{}-{}", host, shard),
                port,
                Role::Primary,
                shard,
            ));
            config.databases.push(database(
                name,
                &format!("{}-{}-replica", host, shard),
                port,
                Role::Replica,
                shard,
            ));
        }
    }
    for name in [first, second] {
        config.sharded_tables.push(ShardedTable {
            database: name.to_string(),
            name: Some("users".to_string()),
            schema: None,
            column: "id".to_string(),
        });
    }
    config.mirroring.push(Mirroring {
        source_db: first.to_string(),
        destination_db: second.to_string(),
        queue_length: None,
        exposure: None,
        level: MirroringLevel::default(),
    });
    config
}

#[test]
fn test_cutover_visual() {
    let mut config = cutover_config("source_db", "destination_db");
    config.cutover("source_db", "destination_db");
    let expected = cutover_config("destination_db", "source_db");
    assert_eq!(config.databases, expected.databases);
    assert_eq!(config.sharded_tables, expected.sharded_tables);
    assert_eq!(config.mirroring, expected.mirroring);

    // Once more, and everything is as it was.
    config.cutover("source_db", "destination_db");
    assert_eq!(config, cutover_config("source_db", "destination_db"));
}

#[test]
fn test_cutover_backup_roundtrip() {
    let mut config = Config::default();
    config.databases.push(database("source_db", "source-host", 5432, Role::Primary, 0));
    config.databases.push(database("destination_db", "destination-host", 5433, Role::Primary, 0));
    let backup: Vec<Database> = config.databases.iter().map(|d| d.clone()).collect();

    config.cutover("source_db", "destination_db");

    let source = config.databases.iter().find(|d| d.name == "source_db").unwrap();
    assert_eq!(source.host, "destination-host");
    assert_eq!(source.port, 5433);
    let dest = config.databases.iter().find(|d| d.name == "destination_db").unwrap();
    assert_eq!(dest.host, "source-host");
    assert_eq!(dest.port, 5432);
    assert_eq!(backup[0].name, "source_db");
    assert_eq!(backup[0].host, "source-host");
}

#[test]
fn test_rds_iam_rejects_passthrough_auth() {
    let mut config = ConfigAndUsers::default();
    config.config.general.passthrough_auth = PassthroughAuth::EnabledPlain;
    config.config.general.tls_verify = TlsVerifyMode::VerifyFull;
    config.users.users.push(external_user(ServerAuth::RdsIam));

    let err = check(&mut config).unwrap_err().to_string();
    assert!(err.contains("passthrough_auth"));
    assert!(err.contains("rds_iam"));
}

#[test]
fn test_rds_iam_rejects_tls_verify_disabled() {
    let mut config = ConfigAndUsers::default();
    config.config.general.tls_verify = TlsVerifyMode::Disabled;
    config.config.general.passthrough_auth = PassthroughAuth::Disabled;
    config.users.users.push(external_user(ServerAuth::RdsIam));

    let err = check(&mut config).unwrap_err().to_string();
    assert!(err.contains("tls_verify"));
    assert!(err.contains("rds_iam"));
}

#[test]
fn test_azure_workload_identity_rejects_passthrough_auth() {
    let mut config = ConfigAndUsers::default();
    config.config.general.passthrough_auth = PassthroughAuth::EnabledPlain;
    config.config.general.tls_verify = TlsVerifyMode::VerifyFull;
    config.users.users.push(external_user(ServerAuth::AzureWorkloadIdentity));

    let err = check(&mut config).unwrap_err().to_string();
    assert!(err.contains("passthrough_auth"));
    assert!(err.contains("azure_workload_identity"));
}

#[test]
fn test_azure_workload_identity_rejects_tls_verify_disabled() {
    let mut config = ConfigAndUsers::default();
    config.config.general.tls_verify = TlsVerifyMode::Disabled;
    config.config.general.passthrough_auth = PassthroughAuth::Disabled;
    config.users.users.push(external_user(ServerAuth::AzureWorkloadIdentity));

    let err = check(&mut config).unwrap_err().to_string();
    assert!(err.contains("tls_verify"));
    assert!(err.contains("azure_workload_identity"));
}

#[test]
fn identities_are_accepted_where_they_are_safe() {
    let mut config = ConfigAndUsers::default();
    config.config.general.tls_verify = TlsVerifyMode::VerifyFull;
    config.users.users.push(external_user(ServerAuth::RdsIam));
    assert!(config.validate_server_auth().is_ok());

    let mut config = ConfigAndUsers::default();
    config.config.general.tls_verify = TlsVerifyMode::Disabled;
    config.config.general.passthrough_auth = PassthroughAuth::EnabledPlain;
    config.users.users.push(external_user(ServerAuth::Password));
    assert!(config.validate_server_auth().is_ok());
}

#[test]
fn test_prefer_primary_from_str() {
    assert_eq!(
        "prefer_primary".parse::<ReadWriteSplit>().unwrap(),
        ReadWriteSplit::PreferPrimary
    );
}

#[test]
fn test_prefer_primary_display() {
    assert_eq!(ReadWriteSplit::PreferPrimary.to_string(), "prefer_primary");
}

#[test]
fn test_read_write_split_roundtrip() {
    for variant in [
        ReadWriteSplit::IncludePrimary,
        ReadWriteSplit::ExcludePrimary,
        ReadWriteSplit::IncludePrimaryIfReplicaBanned,
        ReadWriteSplit::PreferPrimary,
    ] {
        let s = variant.to_string();
        let parsed: ReadWriteSplit = s.parse().unwrap();
        assert_eq!(parsed, variant);
    }
}

#[test]
fn test_read_write_split_from_str_hyphenated() {
    assert_eq!(
        "prefer-primary".parse::<ReadWriteSplit>().unwrap(),
        ReadWriteSplit::PreferPrimary
    );
    assert_eq!(
        "include-primary-if-replica-banned".parse::<ReadWriteSplit>().unwrap(),
        ReadWriteSplit::IncludePrimaryIfReplicaBanned
    );
}

#[test]
fn test_read_write_split_from_str_invalid() {
    assert!("bogus".parse::<ReadWriteSplit>().is_err());
}

#[test]
fn names_are_read_in_any_case() {
    assert_eq!("PREFER_PRIMARY".parse::<ReadWriteSplit>().unwrap(), ReadWriteSplit::PreferPrimary);
    assert_eq!("Primary".parse::<Role>().unwrap(), Role::Primary);
    assert_eq!("REPLICA".parse::<Role>().unwrap(), Role::Replica);
    // The Kelvin sign is not ASCII, and its lower case is the letter k.
    assert!("\u{212A}".parse::<Role>().is_err());
    assert_eq!("bogus".parse::<Role>().unwrap_err(), "Invalid role: bogus");
    assert!("bogus".parse::<ReadWriteStrategy>().is_err());
    assert!("bogus".parse::<LoadBalancingStrategy>().is_err());
    assert_eq!(
        "round_robin".parse::<LoadBalancingStrategy>().unwrap(),
        LoadBalancingStrategy::RoundRobin
    );
}

#[test]
fn roles_have_numbers() {
    for (role, number) in [(Role::Auto, 0u8), (Role::Primary, 1), (Role::Replica, 2)] {
        assert_eq!(u8::from(role), number);
        assert_eq!(Role::try_from(number), Ok(role));
        assert_eq!(role.to_string().parse::<Role>().unwrap(), role);
    }
    assert!(Role::try_from(3u8).is_err());
}

#[test]
fn databases_are_grouped_by_name_and_shard() {
    let config = cutover_config("a", "b");
    let databases = config.databases();
    assert_eq!(databases.len(), 2);
    let a = databases.get("a").unwrap();
    assert_eq!(a.len(), 2);
    assert_eq!(a[0].len(), 2);
    assert_eq!(a[1].len(), 2);
    assert_eq!(a[1][0].number, 2);
    assert_eq!(a[1][0].host, "source-host-1");
    assert_eq!(a[1][1].role, Role::Replica);
    let b = databases.get("b").unwrap();
    assert_eq!(b[0][0].number, 4);
}

#[test]
fn queries_and_mappings_are_looked_up() {
    let mut config = Config::default();
    config.manual_queries.push(ManualQuery { fingerprint: "abc".to_string() });
    let queries = config.manual_queries();
    assert_eq!(queries.len(), 1);
    assert_eq!(queries.get("abc").unwrap().fingerprint, "abc");

    for shard in 0..2 {
        config.sharded_mappings.push(ShardedMapping {
            database: "db".to_string(),
            column: "id".to_string(),
            table: Some("users".to_string()),
            shard,
        });
    }
    config.sharded_mappings.push(ShardedMapping {
        database: "db".to_string(),
        column: "id".to_string(),
        table: None,
        shard: 0,
    });
    let groups = config.sharded_mappings();
    assert_eq!(groups.len(), 2);
    assert_eq!(groups[0].mappings.len(), 2);
    assert_eq!(groups[1].mappings.len(), 1);
}

#[test]
fn mistakes_are_pointed_out() {
    let mut config = Config::default();
    config.databases.push(database("db", "a", 5432, Role::Primary, 0));
    config.databases.push(database("db", "a", 5432, Role::Primary, 0));
    let warnings = warnings_of(&mut config);
    assert!(warnings.contains(&ConfigWarning::DuplicateDatabase { entry: 1 }));
    let text = ConfigWarning::DuplicateDatabase { entry: 1 }.message(&config);
    assert!(text.contains("db"), "{}", text);

    let mut config = Config::default();
    config.databases.push(database("db", "a", 5432, Role::Primary, 0));
    config.databases.push(database("db", "b", 5432, Role::Auto, 0));
    assert!(warnings_of(&mut config).iter().any(|w| matches!(w, ConfigWarning::MixedRoles { .. })));

    let mut config = Config::default();
    config.databases.push(database("db", "a", 5432, Role::Primary, 0));
    config.databases.push(database("db", "b", 5432, Role::Primary, 1));
    config.general.query_parser = QueryParserLevel::Off;
    assert!(warnings_of(&mut config)
        .iter()
        .any(|w| matches!(w, ConfigWarning::ParserNeeded { .. })));

    let mut config = Config::default();
    config.general.ban_timeout = 1_000;
    config.general.idle_healthcheck_interval = 2_000;
    assert!(warnings_of(&mut config).contains(&ConfigWarning::HealthcheckTooRare {
        interval: 2_000,
        ban_timeout: 1_000
    }));

    let mut config = Config::default();
    config.general.passthrough_auth = PassthroughAuth::EnabledPlain;
    assert!(warnings_of(&mut config).contains(&ConfigWarning::PassthroughPlain));

    let mut config = Config::default();
    config.rewrite.enabled = true;
    config.rewrite.shard_key = RewriteMode::Rewrite;
    config.rewrite.split_inserts = RewriteMode::Rewrite;
    let warnings = warnings_of(&mut config);
    assert!(warnings.contains(&ConfigWarning::NonAtomicKeyRewrite));
    assert!(warnings.contains(&ConfigWarning::NonAtomicSplitInserts));

    let mut config = Config::default();
    config.databases.push(database("db", "a", 5432, Role::Primary, 0));
    config.general.read_write_split = ReadWriteSplit::ExcludePrimary;
    assert!(warnings_of(&mut config).contains(&ConfigWarning::NoReplicas { entry: 0 }));

    let mut config = Config::default();
    assert!(warnings_of(&mut config).is_empty());
}

#[test]
fn checking_twice_changes_nothing_more() {
    let mut config = Config::default();
    config.general.query_parser_enabled = true;
    let first = warnings_of(&mut config);
    assert!(first.contains(&ConfigWarning::DeprecatedParserSetting));
    assert_eq!(config.general.query_parser, QueryParserLevel::On);
    let general = format!("{:?}", config);
    warnings_of(&mut config);
    assert_eq!(format!("{:?}", config), general);
}

#[test]
fn passwords_come_in_order() {
    let user = User {
        password: Some("a".to_string()),
        passwords: vec!["b".to_string(), "c".to_string()],
        password_hash: Some("h".to_string()),
        ..Default::default()
    };
    assert_eq!(
        user.passwords(),
        vec![
            PasswordKind::Plain("a".to_string()),
            PasswordKind::Plain("b".to_string()),
            PasswordKind::Plain("c".to_string()),
            PasswordKind::Hashed("h".to_string()),
        ]
    );
}

#[test]
fn numbered_databases_can_be_changed() {
    let mut numbered = EnumeratedDatabase { number: 3, database: Database::default() };
    numbered.name = "production".to_string();
    assert_eq!(numbered.name, "production");
    assert_eq!(numbered.database.name, "production");
    assert_eq!(numbered.number, 3);
}

#[test]
fn full_support_of_prepared_statements_is_recognised() {
    let mut config = ConfigAndUsers::default();
    assert!(!config.prepared_statements_full());
    config.config.general.prepared_statements = PreparedStatements::Full;
    assert!(config.prepared_statements_full());
    assert_eq!(Database::max_connections(), usize::MAX);
}
