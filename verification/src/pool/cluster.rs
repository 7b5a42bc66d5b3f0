//! A collection of shards that belong to the same database.

use crate::config::database::{LoadBalancingStrategy, ReadWriteSplit, ReadWriteStrategy};
use crate::config::general::{
    ConnectionRecovery, LoadSchema, MultiTenant, PoolerMode, PreparedStatements, QueryParserEngine,
    QueryParserLevel, Rewrite, RewriteMode,
};
use crate::config::settings::Config;
use crate::config::sharding::{OmnishardedTable, ShardedSchema, ShardedTable};
use crate::config::users::{clone_passwords, PasswordKind, User};
use crate::pool::config::PoolConfig;
use crate::pool::error::Error;
#[allow(unused_imports)]
use crate::pool::inner::{contents, Inner};
#[allow(unused_imports)]
use crate::pool::lb::{
    find_primary, picks, read_targets, serving, unless_empty, LoadBalancer, Target,
};
#[allow(unused_imports)]
use crate::pool::monitor::all_idle_closed;
#[allow(unused_imports)]
use crate::pool::pool::Pool;
use crate::pool::routing::{PreferredAction, PreferredRead};
#[allow(unused_imports)]
use crate::pool::routing::preferred_read_begun;
use crate::pool::shard::{Shard, ShardConfig};
#[allow(unused_imports)]
use crate::pool::shard::{
    pools_in, same_servers, shard_has_primary, shard_has_replicas, shard_made, shard_moved,
    shard_offline, shard_timeout, shards_can_move,
};
use crate::server::connection::Server;
use crate::text::{clone_option, owned, same};
use crate::time::{Duration, Instant};
#[allow(unused_imports)]
use crate::time::{MAX_NANOS, NANOS_PER_MILLI};
use vstd::prelude::*;

verus! {

/// A user of a database.
#[derive(Debug)]
pub struct DatabaseUser {
    /// The user.
    pub user: String,
    /// The database.
    pub database: String,
}

impl Clone for DatabaseUser {
    fn clone(&self) -> (r: Self)
        ensures
            r == *self,
    {
        DatabaseUser { user: self.user.clone(), database: self.database.clone() }
    }
}

/// Tables that are sharded, and tables that are the same on all shards.
#[derive(Debug)]
pub struct ShardedTables {
    /// Sharded tables.
    pub tables: Vec<ShardedTable>,
    /// Tables that are the same on all shards.
    pub omnisharded: Vec<OmnishardedTable>,
}

impl Default for ShardedTables {
    fn default() -> (r: Self)
        ensures
            r.tables@.len() == 0,
            r.omnisharded@.len() == 0,
    {
        ShardedTables { tables: Vec::new(), omnisharded: Vec::new() }
    }
}

/// The entry is about this column of this table. An entry without a table, or without a schema, is
/// about all of them.
pub open spec fn entry_covers(
    entry: ShardedTable,
    schema: Seq<char>,
    table: Seq<char>,
    column: Seq<char>,
) -> bool {
    &&& entry.name matches Some(name) ==> name@ == table
    &&& entry.schema matches Some(name) ==> name@ == schema
    &&& entry.column@ == column
}

impl ShardedTables {
    /// The first entry about this column of this table.
    pub fn get_table(&self, schema: &str, table: &str, column: &str) -> (r: Option<&ShardedTable>)
        ensures
            match r {
                Some(entry) => exists|i: int|
                    0 <= i < self.tables@.len() && *entry == #[trigger] self.tables@[i]
                        && entry_covers(*entry, schema@, table@, column@) && forall|k: int|
                        0 <= k < i ==> !entry_covers(
                            #[trigger] self.tables@[k],
                            schema@,
                            table@,
                            column@,
                        ),
                None => forall|k: int|
                    0 <= k < self.tables@.len() ==> !entry_covers(
                        #[trigger] self.tables@[k],
                        schema@,
                        table@,
                        column@,
                    ),
            },
    {
        for i in 0..self.tables.len()
            invariant
                forall|k: int|
                    0 <= k < i ==> !entry_covers(
                        #[trigger] self.tables@[k],
                        schema@,
                        table@,
                        column@,
                    ),
        {
            let entry = &self.tables[i];
            let table_fits = match &entry.name {
                Some(name) => same(name.as_str(), table),
                None => true,
            };
            let schema_fits = match &entry.schema {
                Some(name) => same(name.as_str(), schema),
                None => true,
            };
            if table_fits && schema_fits && same(entry.column.as_str(), column) {
                assert(self.tables@[i as int] == *entry);
                return Some(entry);
            }
        }
        None
    }

    /// Sharded tables.
    pub fn tables(&self) -> (r: &Vec<ShardedTable>)
        ensures
            *r == self.tables,
    {
        &self.tables
    }
}

impl Clone for ShardedTables {
    fn clone(&self) -> (r: Self)
        ensures
            r.tables@ == self.tables@,
            r.omnisharded@ == self.omnisharded@,
    {
        let mut tables: Vec<ShardedTable> = Vec::new();
        for i in 0..self.tables.len()
            invariant
                tables@ == self.tables@.take(i as int),
        {
            tables.push(self.tables[i].clone());
            assert(tables@ == self.tables@.take(i + 1));
        }
        assert(self.tables@.take(self.tables@.len() as int) == self.tables@);
        let mut omnisharded: Vec<OmnishardedTable> = Vec::new();
        for i in 0..self.omnisharded.len()
            invariant
                omnisharded@ == self.omnisharded@.take(i as int),
        {
            let table = OmnishardedTable {
                name: self.omnisharded[i].name.clone(),
                sticky_routing: self.omnisharded[i].sticky_routing,
            };
            omnisharded.push(table);
            assert(omnisharded@ == self.omnisharded@.take(i + 1));
        }
        assert(self.omnisharded@.take(self.omnisharded@.len() as int) == self.omnisharded@);
        ShardedTables { tables, omnisharded }
    }
}

/// Schemas whose tables live on one shard.
#[derive(Debug)]
pub struct ShardedSchemas {
    /// The schemas.
    pub schemas: Vec<ShardedSchema>,
}

impl Default for ShardedSchemas {
    fn default() -> (r: Self)
        ensures
            r.schemas@.len() == 0,
    {
        ShardedSchemas { schemas: Vec::new() }
    }
}

impl Clone for ShardedSchemas {
    fn clone(&self) -> (r: Self)
        ensures
            r.schemas@ == self.schemas@,
    {
        let mut schemas: Vec<ShardedSchema> = Vec::new();
        for i in 0..self.schemas.len()
            invariant
                schemas@ == self.schemas@.take(i as int),
        {
            schemas.push(self.schemas[i].clone());
            assert(schemas@ == self.schemas@.take(i + 1));
        }
        assert(self.schemas@.take(self.schemas@.len() as int) == self.schemas@);
        ShardedSchemas { schemas }
    }
}

/// What is known of the sharding of a cluster.
#[derive(Debug)]
pub struct ShardingSchema {
    /// Number of shards.
    pub shards: usize,
    /// Sharded tables.
    pub tables: ShardedTables,
    /// Sharded schemas.
    pub schemas: ShardedSchemas,
    /// Rewrites.
    pub rewrite: Rewrite,
    /// Which query parser is used.
    pub query_parser_engine: QueryParserEngine,
}

impl ShardingSchema {
    /// Sharded tables.
    pub fn tables(&self) -> (r: &ShardedTables)
        ensures
            *r == self.tables,
    {
        &self.tables
    }
}

/// Servers of one shard.
#[derive(Debug)]
pub struct ClusterShardConfig {
    /// The primary.
    pub primary: Option<PoolConfig>,
    /// The replicas.
    pub replicas: Vec<PoolConfig>,
}

/// The pooler mode of a shard: that of its primary, or else that of its first replica.
pub open spec fn shard_pooler_mode(c: ClusterShardConfig) -> PoolerMode {
    match c.primary {
        Some(primary) => primary.config.pooler_mode,
        None => if c.replicas@.len() > 0 {
            c.replicas@[0].config.pooler_mode
        } else {
            PoolerMode::Transaction
        },
    }
}

impl ClusterShardConfig {
    /// The pooler mode: that of the primary, or else that of the first replica.
    pub fn pooler_mode(&self) -> (r: PoolerMode)
        ensures
            r == shard_pooler_mode(*self),
    {
        match &self.primary {
            Some(primary) => primary.config.pooler_mode,
            None => {
                if self.replicas.len() > 0 {
                    self.replicas[0].config.pooler_mode
                } else {
                    PoolerMode::default()
                }
            },
        }
    }
}

/// What a cluster is made from.
#[derive(Debug)]
pub struct ClusterConfig<'a> {
    /// Name of the database.
    pub name: &'a str,
    /// Servers of each shard.
    pub shards: &'a Vec<ClusterShardConfig>,
    /// Load balancing of reads.
    pub lb_strategy: LoadBalancingStrategy,
    /// Name of the user.
    pub user: &'a str,
    /// Passwords of the user.
    pub passwords: Vec<PasswordKind>,
    /// When connections go back to the pool.
    pub pooler_mode: PoolerMode,
    /// Sharded tables.
    pub sharded_tables: ShardedTables,
    /// Database whose changes are streamed to this one.
    pub replication_sharding: Option<String>,
    /// Isolation of tenants.
    pub multi_tenant: &'a Option<MultiTenant>,
    /// How reads are told from writes.
    pub rw_strategy: ReadWriteStrategy,
    /// Separation of reads and writes.
    pub rw_split: ReadWriteSplit,
    /// The user manages the schema.
    pub schema_admin: bool,
    /// Queries on several shards are refused.
    pub cross_shard_disabled: bool,
    /// Cross-shard transactions use two-phase commit.
    pub two_pc: bool,
    /// Cross-shard statements outside of a transaction use two-phase commit.
    pub two_pc_auto: bool,
    /// Sharded schemas.
    pub sharded_schemas: ShardedSchemas,
    /// Rewrites.
    pub rewrite: &'a Rewrite,
    /// How prepared statements are handled.
    pub prepared_statements: &'a PreparedStatements,
    /// Queries are routed for the record only.
    pub dry_run: bool,
    /// `EXPLAIN` says where a query went.
    pub expanded_explain: bool,
    /// Messages that a channel holds.
    pub pub_sub_channel_size: usize,
    /// When queries are parsed.
    pub query_parser: QueryParserLevel,
    /// Which parser is used.
    pub query_parser_engine: QueryParserEngine,
    /// Recovery of server connections.
    pub connection_recovery: ConnectionRecovery,
    /// Recovery of client connections.
    pub client_connection_recovery: ConnectionRecovery,
    /// How often servers are asked where they are in their logs.
    pub lsn_check_interval: Duration,
    /// The schema is loaded again after it was changed.
    pub reload_schema_on_ddl: bool,
    /// Whether the schema is loaded.
    pub load_schema: LoadSchema,
    /// Tables that are copied at a time.
    pub resharding_parallel_copies: usize,
    /// How often the copy of a table is tried again.
    pub resharding_copy_retry_max_attempts: usize,
    /// Milliseconds before the copy of a table is tried again.
    pub resharding_copy_retry_min_delay: u64,
    /// Longest query that the session-control matcher looks at.
    pub regex_parser_limit: usize,
    /// `LISTEN` and `NOTIFY` are served.
    pub pub_sub_enabled: bool,
}

/// Settings of a cluster for this user: those of the user come before the general ones.
pub open spec fn configured_for(
    config: Config,
    user: User,
    shards: Seq<ClusterShardConfig>,
    r: ClusterConfig,
) -> bool {
    let general = config.general;
    &&& r.name@ == user.database@
    &&& r.user@ == user.name@
    &&& r.passwords@ == user.all_passwords()
    &&& r.replication_sharding == user.replication_sharding
    &&& r.pooler_mode == if shards.len() > 0 {
        shard_pooler_mode(shards[0])
    } else {
        match user.pooler_mode {
            Some(mode) => mode,
            None => general.pooler_mode,
        }
    }
    &&& r.lb_strategy == general.load_balancing_strategy
    &&& *r.multi_tenant == config.multi_tenant
    &&& r.rw_strategy == general.read_write_strategy
    &&& r.rw_split == general.read_write_split
    &&& r.schema_admin == user.schema_admin
    &&& r.cross_shard_disabled == match user.cross_shard_disabled {
        Some(b) => b,
        None => general.cross_shard_disabled,
    }
    &&& r.two_pc == match user.two_phase_commit {
        Some(b) => b,
        None => general.two_phase_commit,
    }
    &&& r.two_pc_auto == match user.two_phase_commit_auto {
        Some(b) => b,
        None => match general.two_phase_commit_auto {
            Some(b) => b,
            None => false,
        },
    }
    &&& *r.rewrite == config.rewrite
    &&& *r.prepared_statements == general.prepared_statements
    &&& r.dry_run == general.dry_run
    &&& r.expanded_explain == general.expanded_explain
    &&& r.pub_sub_channel_size == general.pub_sub_channel_size
    &&& r.query_parser == general.query_parser
    &&& r.query_parser_engine == general.query_parser_engine
    &&& r.connection_recovery == general.connection_recovery
    &&& r.client_connection_recovery == general.client_connection_recovery
    &&& r.lsn_check_interval.nanos == general.lsn_check_interval * NANOS_PER_MILLI
    &&& r.reload_schema_on_ddl == general.reload_schema_on_ddl
    &&& r.load_schema == general.load_schema
    &&& r.resharding_parallel_copies == general.resharding_parallel_copies
    &&& r.resharding_copy_retry_max_attempts == general.resharding_copy_retry_max_attempts
    &&& r.resharding_copy_retry_min_delay == general.resharding_copy_retry_min_delay
    &&& r.regex_parser_limit == general.regex_parser_limit
    &&& r.pub_sub_enabled == (general.pub_sub_channel_size > 0)
}

impl<'a> ClusterConfig<'a> {
    /// Settings of a cluster: those of the user come before the general ones.
    pub fn new(
        config: &'a Config,
        user: &'a User,
        shards: &'a Vec<ClusterShardConfig>,
        sharded_tables: ShardedTables,
        sharded_schemas: ShardedSchemas,
    ) -> (r: Self)
        ensures
            configured_for(*config, *user, shards@, r),
            r.shards == shards,
            r.sharded_tables == sharded_tables,
            r.sharded_schemas == sharded_schemas,
    {
        let general = &config.general;
        let pooler_mode = if shards.len() > 0 {
            shards[0].pooler_mode()
        } else {
            match user.pooler_mode {
                Some(mode) => mode,
                None => general.pooler_mode,
            }
        };
        // Off unless someone asked for it.
        let two_pc_auto_default = match general.two_phase_commit_auto {
            Some(b) => b,
            None => false,
        };
        ClusterConfig {
            name: user.database.as_str(),
            passwords: user.passwords(),
            user: user.name.as_str(),
            replication_sharding: clone_option(&user.replication_sharding),
            pooler_mode,
            lb_strategy: general.load_balancing_strategy,
            shards,
            sharded_tables,
            multi_tenant: config.multi_tenant(),
            rw_strategy: general.read_write_strategy,
            rw_split: general.read_write_split,
            schema_admin: user.schema_admin,
            cross_shard_disabled: user.cross_shard_disabled.unwrap_or(
                general.cross_shard_disabled,
            ),
            two_pc: user.two_phase_commit.unwrap_or(general.two_phase_commit),
            two_pc_auto: user.two_phase_commit_auto.unwrap_or(two_pc_auto_default),
            sharded_schemas,
            rewrite: &config.rewrite,
            prepared_statements: &general.prepared_statements,
            dry_run: general.dry_run,
            expanded_explain: general.expanded_explain,
            pub_sub_channel_size: general.pub_sub_channel_size,
            query_parser: general.query_parser,
            query_parser_engine: general.query_parser_engine,
            connection_recovery: general.connection_recovery,
            client_connection_recovery: general.client_connection_recovery,
            lsn_check_interval: Duration::from_millis(general.lsn_check_interval),
            reload_schema_on_ddl: general.reload_schema_on_ddl,
            load_schema: general.load_schema,
            resharding_parallel_copies: general.resharding_parallel_copies,
            resharding_copy_retry_max_attempts: general.resharding_copy_retry_max_attempts,
            resharding_copy_retry_min_delay: general.resharding_copy_retry_min_delay,
            regex_parser_limit: general.regex_parser_limit,
            pub_sub_enabled: general.pub_sub_enabled(),
        }
    }
}

/// A collection of shards that belong to the same database.
#[derive(Debug)]
pub struct Cluster {
    /// Whose and which.
    pub identifier: DatabaseUser,
    /// The shards.
    pub shards: Vec<Shard>,
    /// Passwords of the user.
    pub passwords: Vec<PasswordKind>,
    /// When connections go back to the pool.
    pub pooler_mode: PoolerMode,
    /// Sharded tables.
    pub sharded_tables: ShardedTables,
    /// Sharded schemas.
    pub sharded_schemas: ShardedSchemas,
    /// Database whose changes are streamed to this one.
    pub replication_sharding: Option<String>,
    /// Isolation of tenants.
    pub multi_tenant: Option<MultiTenant>,
    /// How reads are told from writes.
    pub rw_strategy: ReadWriteStrategy,
    /// Separation of reads and writes.
    pub rw_split: ReadWriteSplit,
    /// The user manages the schema.
    pub schema_admin: bool,
    /// Queries on several shards are refused.
    pub cross_shard_disabled: bool,
    /// Cross-shard transactions use two-phase commit.
    pub two_phase_commit: bool,
    /// Cross-shard statements outside of a transaction use two-phase commit.
    pub two_phase_commit_auto: bool,
    /// The cluster serves clients.
    pub online: bool,
    /// Rewrites.
    pub rewrite: Rewrite,
    /// How prepared statements are handled.
    pub prepared_statements: PreparedStatements,
    /// Queries are routed for the record only.
    pub dry_run: bool,
    /// `EXPLAIN` says where a query went.
    pub expanded_explain: bool,
    /// Messages that a channel holds.
    pub pub_sub_channel_size: usize,
    /// When queries are parsed.
    pub query_parser: QueryParserLevel,
    /// Recovery of server connections.
    pub connection_recovery: ConnectionRecovery,
    /// Recovery of client connections.
    pub client_connection_recovery: ConnectionRecovery,
    /// Which parser is used.
    pub query_parser_engine: QueryParserEngine,
    /// The schema is loaded again after it was changed.
    pub reload_schema_on_ddl: bool,
    /// Whether the schema is loaded.
    pub load_schema: LoadSchema,
    /// Tables that are copied at a time.
    pub resharding_parallel_copies: usize,
    /// How often the copy of a table is tried again.
    pub resharding_copy_retry_max_attempts: usize,
    /// How long it takes before the copy of a table is tried again.
    pub resharding_copy_retry_min_delay: Duration,
    /// Longest query that the session-control matcher looks at.
    pub regex_parser_limit: usize,
}

/// How many pools the first `n` shards have.
pub open spec fn pools_before(shards: Seq<ClusterShardConfig>, n: int) -> nat
    decreases n,
{
    if n <= 0 {
        0
    } else {
        pools_before(shards, n - 1) + pools_in(shards[n - 1].primary, shards[n - 1].replicas@)
    }
}

proof fn lemma_pools_before(shards: Seq<ClusterShardConfig>, a: int, b: int)
    requires
        0 <= a <= b,
    ensures
        pools_before(shards, a) <= pools_before(shards, b),
    decreases b - a,
{
    if a < b {
        lemma_pools_before(shards, a, b - 1);
    }
}

/// The pools of the shards can be made.
pub open spec fn makeable(shards: Seq<ClusterShardConfig>, first_id: int) -> bool {
    &&& first_id + pools_before(shards, shards.len() as int) <= u64::MAX
    &&& forall|i: int|
        0 <= i < shards.len() ==> {
            let s = #[trigger] shards[i];
            shard_timeout(s.primary, s.replicas@) <= MAX_NANOS && s.replicas@.len() < usize::MAX
        }
}

/// The cluster was made with these settings. Two-phase commit takes more than one shard.
pub open spec fn made_from(config: ClusterConfig, r: Cluster) -> bool {
    &&& r.identifier.user@ == config.user@
    &&& r.identifier.database@ == config.name@
    &&& r.passwords == config.passwords
    &&& r.pooler_mode == config.pooler_mode
    &&& r.sharded_tables == config.sharded_tables
    &&& r.sharded_schemas == config.sharded_schemas
    &&& r.replication_sharding == config.replication_sharding
    &&& r.multi_tenant == *config.multi_tenant
    &&& r.rw_strategy == config.rw_strategy
    &&& r.rw_split == config.rw_split
    &&& r.schema_admin == config.schema_admin
    &&& r.cross_shard_disabled == config.cross_shard_disabled
    &&& r.two_phase_commit == (config.two_pc && config.shards@.len() > 1)
    &&& r.two_phase_commit_auto == (config.two_pc_auto && config.shards@.len() > 1)
    &&& !r.online
    &&& r.rewrite == *config.rewrite
    &&& r.prepared_statements == *config.prepared_statements
    &&& r.dry_run == config.dry_run
    &&& r.expanded_explain == config.expanded_explain
    &&& r.pub_sub_channel_size == config.pub_sub_channel_size
    &&& r.query_parser == config.query_parser
    &&& r.connection_recovery == config.connection_recovery
    &&& r.client_connection_recovery == config.client_connection_recovery
    &&& r.query_parser_engine == config.query_parser_engine
    &&& r.reload_schema_on_ddl == config.reload_schema_on_ddl
    &&& r.load_schema == config.load_schema
    &&& r.resharding_parallel_copies == config.resharding_parallel_copies
    &&& r.resharding_copy_retry_max_attempts == config.resharding_copy_retry_max_attempts
    &&& r.resharding_copy_retry_min_delay.nanos == config.resharding_copy_retry_min_delay * NANOS_PER_MILLI
    &&& r.regex_parser_limit == config.regex_parser_limit
}

/// The cluster has no primary at all.
pub open spec fn is_read_only(c: Cluster) -> bool {
    forall|i: int| 0 <= i < c.shards@.len() ==> !shard_has_primary(#[trigger] c.shards@[i])
}

/// The cluster has no replica at all.
pub open spec fn is_write_only(c: Cluster) -> bool {
    forall|i: int| 0 <= i < c.shards@.len() ==> !shard_has_replicas(#[trigger] c.shards@[i])
}

/// There is more than one place where a query can go.
pub open spec fn needs_router(c: Cluster) -> bool {
    !(c.shards@.len() == 1 && (is_read_only(c) || is_write_only(c)))
}

/// Cross-shard statements outside of a transaction use two-phase commit.
pub open spec fn commits_in_two_phases(c: Cluster) -> bool {
    c.two_phase_commit_auto && c.two_phase_commit
}

/// The schema is loaded again after it was changed.
pub open spec fn reloads_schema(c: Cluster) -> bool {
    c.reload_schema_on_ddl && loads_schema(c)
}

/// Nobody has to wait for the schema any longer.
pub open spec fn is_schema_ready(c: Cluster) -> bool {
    !loads_schema(c) || forall|i: int|
        0 <= i < c.shards@.len() ==> (#[trigger] c.shards@[i]).schema_ready
}

/// What to do after the schema of a shard was loaded, or was not.
pub open spec fn after_schema(outcome: SchemaLoad, shard_online: bool) -> SchemaAction {
    match outcome {
        SchemaLoad::Loaded => SchemaAction::Announce,
        SchemaLoad::AlreadyLoaded => SchemaAction::Finish,
        SchemaLoad::Failed => if shard_online {
            SchemaAction::RetryAfter(Duration { nanos: 100_000_000 })
        } else {
            SchemaAction::Abandon
        },
    }
}

/// The schema is loaded.
pub open spec fn loads_schema(c: Cluster) -> bool {
    match c.load_schema {
        LoadSchema::On => true,
        LoadSchema::Off => false,
        LoadSchema::Auto => c.shards@.len() > 1 || c.multi_tenant is Some,
    }
}

/// A query is parsed. `session_control` says whether the session-control matcher wants it to be.
pub open spec fn parses(c: Cluster, session_control: bool) -> bool {
    match c.query_parser {
        QueryParserLevel::Off => false,
        QueryParserLevel::On => true,
        QueryParserLevel::SessionControl
        | QueryParserLevel::SessionControlAndLocks => session_control,
        QueryParserLevel::Auto => c.multi_tenant is Some || needs_router(c) || c.dry_run
            || c.prepared_statements == PreparedStatements::Full || c.pub_sub_channel_size > 0
            || session_control,
    }
}

/// What came of loading the schema of a shard.
#[derive(Clone, Copy, Debug, PartialEq, Eq, Structural)]
pub enum SchemaLoad {
    /// It was loaded.
    Loaded,
    /// It had been loaded before.
    AlreadyLoaded,
    /// Something went wrong.
    Failed,
}

/// What to do after the schema of a shard was loaded, or was not.
#[derive(Clone, Copy, Debug, PartialEq, Eq, Structural)]
pub enum SchemaAction {
    /// Spread the news.
    Announce,
    /// Nothing.
    Finish,
    /// Try again after this much time.
    RetryAfter(Duration),
    /// Nothing: the cluster is going away, and nobody needs to wait for the schema any longer.
    Abandon,
}

impl Cluster {
    /// A cluster over new pools, with identifiers from `first_id` on. Two-phase commit takes more
    /// than one shard.
    pub fn new(config: ClusterConfig, first_id: u64) -> (r: Self)
        requires
            makeable(config.shards@, first_id as int),
        ensures
            r.shards@.len() == config.shards@.len(),
            forall|i: int|
                0 <= i < r.shards@.len() ==> {
                    &&& shard_made(
                        #[trigger] r.shards@[i],
                        i,
                        config.shards@[i].primary,
                        config.shards@[i].replicas@,
                        first_id + pools_before(config.shards@, i),
                    )
                    &&& r.shards@[i].lb.lb_strategy == config.lb_strategy
                    &&& r.shards@[i].lb.rw_split == config.rw_split
                    &&& r.shards@[i].lsn_check_interval == config.lsn_check_interval
                    &&& r.shards@[i].pub_sub_enabled == config.pub_sub_enabled
                },
            made_from(config, r),
    {
        let mut shards: Vec<Shard> = Vec::new();
        let mut next_id: u64 = first_id;
        for i in 0..config.shards.len()
            invariant
                makeable(config.shards@, first_id as int),
                next_id == first_id + pools_before(config.shards@, i as int),
                shards@.len() == i,
                forall|k: int|
                    0 <= k < i ==> {
                        &&& shard_made(
                            #[trigger] shards@[k],
                            k,
                            config.shards@[k].primary,
                            config.shards@[k].replicas@,
                            first_id + pools_before(config.shards@, k),
                        )
                        &&& shards@[k].lb.lb_strategy == config.lb_strategy
                        &&& shards@[k].lb.rw_split == config.rw_split
                        &&& shards@[k].lsn_check_interval == config.lsn_check_interval
                        &&& shards@[k].pub_sub_enabled == config.pub_sub_enabled
                    },
        {
            proof {
                lemma_pools_before(config.shards@, i + 1, config.shards@.len() as int);
            }
            let servers = &config.shards[i];
            let shard = Shard::new(
                ShardConfig {
                    number: i,
                    primary: &servers.primary,
                    replicas: &servers.replicas,
                    lb_strategy: config.lb_strategy,
                    rw_split: config.rw_split,
                    lsn_check_interval: config.lsn_check_interval,
                    pub_sub_enabled: config.pub_sub_enabled,
                },
                next_id,
            );
            shards.push(shard);
            let made: u64 = servers.replicas.len() as u64;
            next_id = next_id + made;
            if servers.primary.is_some() {
                next_id = next_id + 1;
            }
        }
        let several = config.shards.len() > 1;
        let multi_tenant = match config.multi_tenant {
            Some(m) => Some(m.clone()),
            None => None,
        };
        Cluster {
            identifier: DatabaseUser { user: owned(config.user), database: owned(config.name) },
            shards,
            passwords: config.passwords,
            pooler_mode: config.pooler_mode,
            sharded_tables: config.sharded_tables,
            sharded_schemas: config.sharded_schemas,
            replication_sharding: config.replication_sharding,
            multi_tenant,
            rw_strategy: config.rw_strategy,
            rw_split: config.rw_split,
            schema_admin: config.schema_admin,
            cross_shard_disabled: config.cross_shard_disabled,
            two_phase_commit: config.two_pc && several,
            two_phase_commit_auto: config.two_pc_auto && several,
            online: false,
            rewrite: *config.rewrite,
            prepared_statements: *config.prepared_statements,
            dry_run: config.dry_run,
            expanded_explain: config.expanded_explain,
            pub_sub_channel_size: config.pub_sub_channel_size,
            query_parser: config.query_parser,
            connection_recovery: config.connection_recovery,
            client_connection_recovery: config.client_connection_recovery,
            query_parser_engine: config.query_parser_engine,
            reload_schema_on_ddl: config.reload_schema_on_ddl,
            load_schema: config.load_schema,
            resharding_parallel_copies: config.resharding_parallel_copies,
            resharding_copy_retry_max_attempts: config.resharding_copy_retry_max_attempts,
            resharding_copy_retry_min_delay: Duration::from_millis(
                config.resharding_copy_retry_min_delay,
            ),
            regex_parser_limit: config.regex_parser_limit,
        }
    }

    /// The cluster as it is used to stream changes: statements are sent as they are.
    pub fn logical_stream(self) -> (r: Self)
        ensures
            r == (Cluster {
                rewrite: Rewrite {
                    enabled: false,
                    shard_key: RewriteMode::Ignore,
                    split_inserts: RewriteMode::Ignore,
                },
                ..self
            }),
    {
        let mut cluster = self;
        cluster.rewrite.enabled = false;
        cluster.rewrite.shard_key = RewriteMode::Ignore;
        cluster.rewrite.split_inserts = RewriteMode::Ignore;
        cluster
    }

    /// The shard of this number.
    pub fn shard(&self, shard: usize) -> (r: Result<&Shard, Error>)
        ensures
            match r {
                Ok(s) => shard < self.shards@.len() && *s == self.shards@[shard as int],
                Err(e) => shard >= self.shards@.len() && e == Error::NoShard(shard),
            },
    {
        if shard < self.shards.len() {
            Ok(&self.shards[shard])
        } else {
            Err(Error::NoShard(shard))
        }
    }

    /// The two clusters are over the same servers.
    pub fn can_move_conns_to(&self, other: &Cluster) -> (r: bool)
        ensures
            r <==> self.shards@.len() == other.shards@.len() && forall|i: int|
                0 <= i < self.shards@.len() ==> same_servers(
                    #[trigger] self.shards@[i],
                    other.shards@[i],
                ),
    {
        if self.shards.len() != other.shards.len() {
            return false;
        }
        for i in 0..self.shards.len()
            invariant
                self.shards@.len() == other.shards@.len(),
                forall|k: int|
                    0 <= k < i ==> same_servers(#[trigger] self.shards@[k], other.shards@[k]),
        {
            if !self.shards[i].can_move_conns_to(&other.shards[i]) {
                assert(!same_servers(self.shards@[i as int], other.shards@[i as int]));
                return false;
            }
        }
        true
    }

    /// Give all connections to another cluster, shard by shard, as far as both have shards.
    pub fn move_conns_to(&mut self, other: &mut Cluster, now: Instant) -> (r: Result<(), Error>)
        requires
            forall|i: int|
                0 <= i < old(self).shards@.len() && i < old(other).shards@.len() ==> shards_can_move(
                    #[trigger] old(self).shards@[i],
                    old(other).shards@[i],
                    now,
                ),
        ensures
            r is Ok,
            final(self).shards@.len() == old(self).shards@.len(),
            final(other).shards@.len() == old(other).shards@.len(),
            *final(self) == (Cluster { shards: final(self).shards, ..*old(self) }),
            *final(other) == (Cluster { shards: final(other).shards, ..*old(other) }),
            forall|i: int|
                0 <= i < old(self).shards@.len() && i < old(other).shards@.len() ==> shard_moved(
                    old(self).shards@[i],
                    old(other).shards@[i],
                    final(self).shards@[i],
                    #[trigger] final(other).shards@[i],
                    now,
                ),
            forall|i: int|
                old(other).shards@.len() <= i < old(self).shards@.len()
                    ==> #[trigger] final(self).shards@[i] == old(self).shards@[i],
            forall|i: int|
                old(self).shards@.len() <= i < old(other).shards@.len()
                    ==> #[trigger] final(other).shards@[i] == old(other).shards@[i],
    {
        let ghost from = self.shards@;
        let ghost to = other.shards@;
        let mut i: usize = 0;
        while i < self.shards.len() && i < other.shards.len()
            invariant
                i <= self.shards@.len(),
                i <= other.shards@.len(),
                from == old(self).shards@,
                to == old(other).shards@,
                self.shards@.len() == from.len(),
                other.shards@.len() == to.len(),
                *self == (Cluster { shards: self.shards, ..*old(self) }),
                *other == (Cluster { shards: other.shards, ..*old(other) }),
                forall|k: int|
                    0 <= k < from.len() && k < to.len() ==> shards_can_move(
                        #[trigger] from[k],
                        to[k],
                        now,
                    ),
                forall|k: int|
                    0 <= k < i ==> shard_moved(
                        from[k],
                        to[k],
                        self.shards@[k],
                        #[trigger] other.shards@[k],
                        now,
                    ),
                forall|k: int| i <= k < from.len() ==> #[trigger] self.shards@[k] == from[k],
                forall|k: int| i <= k < to.len() ==> #[trigger] other.shards@[k] == to[k],
            decreases self.shards@.len() - i,
        {
            assert(self.shards@[i as int] == from[i as int] && other.shards@[i as int]
                == to[i as int]);
            match self.shards[i].move_conns_to(&mut other.shards[i], now) {
                Ok(_) => {},
                Err(err) => {
                    return Err(err);
                },
            }
            i = i + 1;
        }
        Ok(())
    }

    /// All shards.
    pub fn shards(&self) -> (r: &Vec<Shard>)
        ensures
            *r == self.shards,
    {
        &self.shards
    }

    /// Passwords of the user.
    pub fn passwords(&self) -> (r: &Vec<PasswordKind>)
        ensures
            *r == self.passwords,
    {
        &self.passwords
    }

    /// Name of the user.
    pub fn user(&self) -> (r: &str)
        ensures
            r@ == self.identifier.user@,
    {
        self.identifier.user.as_str()
    }

    /// Name of the database.
    pub fn name(&self) -> (r: &str)
        ensures
            r@ == self.identifier.database@,
    {
        self.identifier.database.as_str()
    }

    /// Whose and which.
    pub fn identifier(&self) -> (r: &DatabaseUser)
        ensures
            *r == self.identifier,
    {
        &self.identifier
    }

    /// When connections go back to the pool.
    pub fn pooler_mode(&self) -> (r: PoolerMode)
        ensures
            r == self.pooler_mode,
    {
        self.pooler_mode
    }

    /// Sharded tables.
    pub fn sharded_tables(&self) -> (r: &Vec<ShardedTable>)
        ensures
            *r == self.sharded_tables.tables,
    {
        self.sharded_tables.tables()
    }

    /// Rewrites.
    pub fn rewrite(&self) -> (r: &Rewrite)
        ensures
            *r == self.rewrite,
    {
        &self.rewrite
    }

    /// When queries are parsed.
    pub fn query_parser(&self) -> (r: QueryParserLevel)
        ensures
            r == self.query_parser,
    {
        self.query_parser
    }

    /// How prepared statements are handled.
    pub fn prepared_statements(&self) -> (r: &PreparedStatements)
        ensures
            *r == self.prepared_statements,
    {
        &self.prepared_statements
    }

    /// Recovery of server connections.
    pub fn connection_recovery(&self) -> (r: &ConnectionRecovery)
        ensures
            *r == self.connection_recovery,
    {
        &self.connection_recovery
    }

    /// Recovery of client connections.
    pub fn client_connection_recovery(&self) -> (r: &ConnectionRecovery)
        ensures
            *r == self.client_connection_recovery,
    {
        &self.client_connection_recovery
    }

    /// Queries are routed for the record only.
    pub fn dry_run(&self) -> (r: bool)
        ensures
            r == self.dry_run,
    {
        self.dry_run
    }

    /// `EXPLAIN` says where a query went.
    pub fn expanded_explain(&self) -> (r: bool)
        ensures
            r == self.expanded_explain,
    {
        self.expanded_explain
    }

    /// `LISTEN` and `NOTIFY` are served.
    pub fn pub_sub_enabled(&self) -> (r: bool)
        ensures
            r == (self.pub_sub_channel_size > 0),
    {
        self.pub_sub_channel_size > 0
    }

    /// No shard has a primary.
    pub fn read_only(&self) -> (r: bool)
        ensures
            r == is_read_only(*self),
    {
        for i in 0..self.shards.len()
            invariant
                forall|k: int| 0 <= k < i ==> !shard_has_primary(#[trigger] self.shards@[k]),
        {
            if self.shards[i].has_primary() {
                return false;
            }
        }
        true
    }

    /// No shard has a replica.
    pub fn write_only(&self) -> (r: bool)
        ensures
            r == is_write_only(*self),
    {
        for i in 0..self.shards.len()
            invariant
                forall|k: int| 0 <= k < i ==> !shard_has_replicas(#[trigger] self.shards@[k]),
        {
            if self.shards[i].has_replicas() {
                return false;
            }
        }
        true
    }

    /// The user manages the schema.
    pub fn schema_admin(&self) -> (r: bool)
        ensures
            r == self.schema_admin,
    {
        self.schema_admin
    }

    /// Set whether the user manages the schema.
    pub fn toggle_schema_admin(&mut self, owner: bool)
        ensures
            *final(self) == (Cluster { schema_admin: owner, ..*old(self) }),
    {
        self.schema_admin = owner;
    }

    /// There is more than one place where a query can go.
    pub fn router_needed(&self) -> (r: bool)
        ensures
            r == needs_router(*self),
    {
        !(self.shards.len() == 1 && (self.read_only() || self.write_only()))
    }

    /// A query is parsed. `session_control` says whether the session-control matcher wants it to
    /// be.
    pub fn use_query_parser(&self, session_control: bool) -> (r: bool)
        ensures
            r == parses(*self, session_control),
    {
        match self.query_parser() {
            QueryParserLevel::Off => false,
            QueryParserLevel::On => true,
            QueryParserLevel::SessionControl
            | QueryParserLevel::SessionControlAndLocks => session_control,
            QueryParserLevel::Auto => self.multi_tenant.is_some() || self.router_needed()
                || self.dry_run() || self.prepared_statements == PreparedStatements::Full
                || self.pub_sub_enabled() || session_control,
        }
    }

    /// Isolation of tenants.
    pub fn multi_tenant(&self) -> (r: &Option<MultiTenant>)
        ensures
            *r == self.multi_tenant,
    {
        &self.multi_tenant
    }

    /// Database whose changes are streamed to this one.
    pub fn replication_sharding(&self) -> (r: &Option<String>)
        ensures
            *r == self.replication_sharding,
    {
        &self.replication_sharding
    }

    /// What is known of the sharding of the cluster.
    pub fn sharding_schema(&self) -> (r: ShardingSchema)
        ensures
            r.shards == self.shards@.len(),
            r.tables.tables@ == self.sharded_tables.tables@,
            r.tables.omnisharded@ == self.sharded_tables.omnisharded@,
            r.schemas.schemas@ == self.sharded_schemas.schemas@,
            r.rewrite == self.rewrite,
            r.query_parser_engine == self.query_parser_engine,
    {
        ShardingSchema {
            shards: self.shards.len(),
            tables: self.sharded_tables.clone(),
            schemas: self.sharded_schemas.clone(),
            rewrite: self.rewrite,
            query_parser_engine: self.query_parser_engine,
        }
    }

    /// The schema is loaded again after it was changed.
    pub fn reload_schema(&self) -> (r: bool)
        ensures
            r == reloads_schema(*self),
    {
        self.reload_schema_on_ddl && self.load_schema()
    }

    /// The schema is loaded.
    pub fn load_schema(&self) -> (r: bool)
        ensures
            r == loads_schema(*self),
    {
        match self.load_schema {
            LoadSchema::On => true,
            LoadSchema::Off => false,
            LoadSchema::Auto => self.shards.len() > 1 || self.multi_tenant.is_some(),
        }
    }

    /// How reads are told from writes.
    pub fn read_write_strategy(&self) -> (r: &ReadWriteStrategy)
        ensures
            *r == self.rw_strategy,
    {
        &self.rw_strategy
    }

    /// Separation of reads and writes.
    pub fn read_write_split(&self) -> (r: ReadWriteSplit)
        ensures
            r == self.rw_split,
    {
        self.rw_split
    }

    /// Queries on several shards are refused.
    pub fn cross_shard_disabled(&self) -> (r: bool)
        ensures
            r == self.cross_shard_disabled,
    {
        self.cross_shard_disabled
    }

    /// Cross-shard transactions use two-phase commit.
    pub fn two_pc_enabled(&self) -> (r: bool)
        ensures
            r == self.two_phase_commit,
    {
        self.two_phase_commit
    }

    /// Cross-shard statements outside of a transaction use two-phase commit.
    pub fn two_pc_auto_enabled(&self) -> (r: bool)
        ensures
            r == commits_in_two_phases(*self),
    {
        self.two_phase_commit_auto && self.two_pc_enabled()
    }

    /// Tables that are copied at a time.
    pub fn resharding_parallel_copies(&self) -> (r: usize)
        ensures
            r == self.resharding_parallel_copies,
    {
        self.resharding_parallel_copies
    }

    /// How often the copy of a table is tried again.
    pub fn resharding_copy_retry_max_attempts(&self) -> (r: usize)
        ensures
            r == self.resharding_copy_retry_max_attempts,
    {
        self.resharding_copy_retry_max_attempts
    }

    /// How long it takes before the copy of a table is tried again.
    pub fn resharding_copy_retry_min_delay(&self) -> (r: &Duration)
        ensures
            *r == self.resharding_copy_retry_min_delay,
    {
        &self.resharding_copy_retry_min_delay
    }

    /// Bring all pools online. The numbers of the shards whose schema has to be loaded come back;
    /// where it is not needed, nobody has to wait for it.
    pub fn launch(&mut self) -> (r: Vec<usize>)
        ensures
            *final(self) == (Cluster { online: true, shards: final(self).shards, ..*old(self) }),
            final(self).shards@.len() == old(self).shards@.len(),
            forall|i: int|
                0 <= i < old(self).shards@.len() ==> launched(
                    old(self).shards@[i],
                    #[trigger] final(self).shards@[i],
                    loads_schema(*old(self)),
                ),
            r@ == if loads_schema(*old(self)) {
                Seq::new(old(self).shards@.len(), |i: int| i as usize)
            } else {
                Seq::empty()
            },
    {
        let needed = self.load_schema();
        let mut load: Vec<usize> = Vec::new();
        let ghost before = self.shards@;
        let mut i: usize = 0;
        while i < self.shards.len()
            invariant
                i <= self.shards@.len(),
                before == old(self).shards@,
                self.shards@.len() == before.len(),
                needed == loads_schema(*old(self)),
                *self == (Cluster { shards: self.shards, ..*old(self) }),
                load@ == if needed {
                    Seq::new(i as nat, |k: int| k as usize)
                } else {
                    Seq::empty()
                },
                forall|k: int|
                    0 <= k < i ==> launched(before[k], #[trigger] self.shards@[k], needed),
                forall|k: int|
                    i <= k < self.shards@.len() ==> #[trigger] self.shards@[k] == before[k],
            decreases self.shards@.len() - i,
        {
            let _ = self.shards[i].lb.launch();
            if needed {
                load.push(i);
            } else {
                self.shards[i].schema_not_needed();
            }
            i = i + 1;
        }
        self.online = true;
        load
    }

    /// What to do after the schema of a shard was loaded, or was not: as long as the shard is
    /// online, a failure is tried again.
    pub fn schema_loaded(outcome: SchemaLoad, shard_online: bool) -> (r: SchemaAction)
        ensures
            r == after_schema(outcome, shard_online),
    {
        match outcome {
            SchemaLoad::Loaded => SchemaAction::Announce,
            SchemaLoad::AlreadyLoaded => SchemaAction::Finish,
            SchemaLoad::Failed => {
                if shard_online {
                    SchemaAction::RetryAfter(Duration::from_millis(100))
                } else {
                    SchemaAction::Abandon
                }
            },
        }
    }

    /// Take all pools offline. Their idle connections come back to be closed.
    pub fn shutdown(&mut self) -> (r: Vec<Box<Server>>)
        ensures
            *final(self) == (Cluster { online: false, shards: final(self).shards, ..*old(self) }),
            final(self).shards@.len() == old(self).shards@.len(),
            forall|i: int|
                0 <= i < final(self).shards@.len() ==> shard_offline(
                    old(self).shards@[i],
                    #[trigger] final(self).shards@[i],
                ),
            contents(r@) == all_shards_closed(old(self).shards@),
    {
        let mut closed: Vec<Box<Server>> = Vec::new();
        let ghost before = self.shards@;
        assert(before.take(0) == Seq::<Shard>::empty());
        let mut i: usize = 0;
        while i < self.shards.len()
            invariant
                i <= self.shards@.len(),
                before == old(self).shards@,
                self.shards@.len() == before.len(),
                contents(closed@) == all_shards_closed(before.take(i as int)),
                forall|k: int| i <= k < before.len() ==> #[trigger] self.shards@[k] == before[k],
                *self == (Cluster { shards: self.shards, ..*old(self) }),
                forall|k: int|
                    0 <= k < i ==> shard_offline(before[k], #[trigger] self.shards@[k]),
            decreases self.shards@.len() - i,
        {
            let mut more = self.shards[i].shutdown();
            assert(before.take(i + 1).drop_last() == before.take(i as int));
            assert(contents(closed@ + more@) == contents(closed@) + contents(more@));
            closed.append(&mut more);
            i = i + 1;
        }
        assert(before.take(before.len() as int) == before);
        self.online = false;
        closed
    }

    /// The cluster serves clients.
    pub fn online(&self) -> (r: bool)
        ensures
            r == self.online,
    {
        self.online
    }

    /// Nobody has to wait for the schema any longer.
    pub fn schema_ready(&self) -> (r: bool)
        ensures
            r == is_schema_ready(*self),
    {
        if !self.load_schema() {
            return true;
        }
        for i in 0..self.shards.len()
            invariant
                loads_schema(*self),
                forall|k: int| 0 <= k < i ==> (#[trigger] self.shards@[k]).schema_ready,
        {
            if !self.shards[i].schema_ready {
                return false;
            }
        }
        true
    }

    /// The pool of the primary of a shard.
    pub fn primary(&mut self, shard: usize) -> (r: Result<usize, Error>)
        ensures
            final(self).shards@.len() == old(self).shards@.len(),
            shard >= old(self).shards@.len() ==> r == Err::<usize, Error>(Error::NoShard(shard))
                && *final(self) == *old(self),
            shard < old(self).shards@.len() ==> {
                let lb = old(self).shards@[shard as int].lb;
                let found = find_primary(lb.targets@, lb.primary_idx);
                &&& r == match found {
                    Some(i) => Ok::<usize, Error>(i),
                    None => Err(Error::NoPrimary),
                }
                &&& final(self).shards@ == old(self).shards@.update(
                    shard as int,
                    Shard {
                        lb: LoadBalancer { primary_idx: found, ..lb },
                        ..old(self).shards@[shard as int]
                    },
                )
                &&& *final(self) == (Cluster { shards: final(self).shards, ..*old(self) })
            },
    {
        if shard >= self.shards.len() {
            return Err(Error::NoShard(shard));
        }
        self.shards[shard].lb.get_primary()
    }

    /// Servers of a shard that a read can go to.
    pub fn replica(&self, shard: usize) -> (r: Result<Vec<usize>, Error>)
        ensures
            if shard < self.shards@.len() {
                let lb = self.shards@[shard as int].lb;
                unless_empty(r, read_targets(lb.rw_split, lb.targets@))
            } else {
                r matches Err(e) && e == Error::NoShard(shard)
            },
    {
        match self.shard(shard) {
            Ok(shard) => shard.lb.read_candidates(),
            Err(err) => Err(err),
        }
    }

    /// Servers of a shard that a read can go to whatever the separation of reads and writes.
    pub fn any_read(&self, shard: usize) -> (r: Result<Vec<usize>, Error>)
        ensures
            if shard < self.shards@.len() {
                unless_empty(
                    r,
                    picks(self.shards@[shard as int].lb.targets@, |t: Target| serving(t)),
                )
            } else {
                r matches Err(e) && e == Error::NoShard(shard)
            },
    {
        match self.shard(shard) {
            Ok(shard) => shard.lb.any_read(),
            Err(err) => Err(err),
        }
    }

    /// Begin a read of a shard that prefers its primary.
    pub fn preferred_read(&mut self, shard: usize) -> (r: Result<
        (PreferredRead, PreferredAction),
        Error,
    >)
        ensures
            final(self).shards@.len() == old(self).shards@.len(),
            shard >= old(self).shards@.len() ==> r == Err::<
                (PreferredRead, PreferredAction),
                Error,
            >(Error::NoShard(shard)) && *final(self) == *old(self),
            shard < old(self).shards@.len() ==> {
                let before = old(self).shards@[shard as int];
                let after = final(self).shards@[shard as int];
                &&& r matches Ok(begun) && preferred_read_begun(
                    before.lb,
                    after.lb,
                    begun.0,
                    begun.1,
                )
                &&& final(self).shards@ == old(self).shards@.update(
                    shard as int,
                    Shard { lb: after.lb, ..before },
                )
                &&& *final(self) == (Cluster { shards: final(self).shards, ..*old(self) })
            },
    {
        if shard >= self.shards.len() {
            return Err(Error::NoShard(shard));
        }
        Ok(self.shards[shard].lb.preferred_read())
    }

    /// What a client connection has to know of the cluster.
    pub fn handle(&self) -> (r: ClusterHandle)
        ensures
            r.name@ == self.identifier.database@,
            r.pooler_mode == self.pooler_mode,
            r.shards == self.shards@.len(),
            r.passwords@ == self.passwords@,
    {
        ClusterHandle {
            name: owned(self.name()),
            pooler_mode: self.pooler_mode(),
            shards: self.shards.len(),
            passwords: clone_passwords(&self.passwords),
        }
    }
}

/// What a client connection has to know of a cluster.
#[derive(Debug)]
pub struct ClusterHandle {
    /// Name of the database.
    pub name: String,
    /// When connections go back to the pool.
    pub pooler_mode: PoolerMode,
    /// Number of shards.
    pub shards: usize,
    /// Passwords of the user.
    pub passwords: Vec<PasswordKind>,
}

/// A shard that was brought online.
pub open spec fn launched(before: Shard, after: Shard, loads: bool) -> bool {
    &&& after == (Shard {
        lb: LoadBalancer { targets: after.lb.targets, ..before.lb },
        schema_ready: before.schema_ready || !loads,
        ..before
    })
    &&& after.lb.targets@.len() == before.lb.targets@.len()
    &&& forall|i: int|
        0 <= i < before.lb.targets@.len() ==> #[trigger] after.lb.targets@[i] == (Target {
            pool: Pool {
                inner: Inner { online: true, ..before.lb.targets@[i].pool.inner },
                ..before.lb.targets@[i].pool
            },
            ..before.lb.targets@[i]
        })
}

/// Idle connections of all shards, one shard after the other, closed for going offline.
pub open spec fn all_shards_closed(shards: Seq<Shard>) -> Seq<Server>
    decreases shards.len(),
{
    if shards.len() == 0 {
        Seq::empty()
    } else {
        all_shards_closed(shards.drop_last()) + all_idle_closed(shards.last().lb.targets@)
    }
}

/// A cluster of several shards loads its schema and parses every query, unless that was turned off.
pub proof fn several_shards_are_routed(c: Cluster, session_control: bool)
    requires
        c.shards@.len() > 1,
    ensures
        c.load_schema != LoadSchema::Off ==> loads_schema(c),
        needs_router(c),
        c.query_parser == QueryParserLevel::Auto || c.query_parser == QueryParserLevel::On
            ==> parses(c, session_control),
{
}

/// Where the matcher asks for a query to be parsed, it is, unless the parser is off; where it does
/// not, the parser can still be needed for another reason.
pub proof fn session_control_is_enough(c: Cluster)
    ensures
        parses(c, true) == (c.query_parser != QueryParserLevel::Off),
        parses(c, false) ==> parses(c, true),
{
}

} // verus!
