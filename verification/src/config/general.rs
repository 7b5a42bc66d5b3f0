//! Settings that apply to the pooler itself or to all pools.

use crate::config::database::{LoadBalancingStrategy, ReadWriteSplit, ReadWriteStrategy};
use crate::text::{clone_option, owned};
use vstd::prelude::*;

verus! {

/// When a server connection goes back to the pool.
#[derive(Clone, Copy, Debug, PartialEq, Eq, Structural)]
pub enum PoolerMode {
    /// At the end of each transaction.
    Transaction,
    /// When the client disconnects.
    Session,
    /// At the end of each statement.
    Statement,
}

impl Default for PoolerMode {
    fn default() -> (r: Self)
        ensures
            r == PoolerMode::Transaction,
    {
        PoolerMode::Transaction
    }
}

/// How prepared statements are handled.
#[derive(Clone, Copy, Debug, PartialEq, Eq, Structural)]
pub enum PreparedStatements {
    /// Not at all.
    Disabled,
    /// Those of the extended protocol.
    Extended,
    /// Those of the extended protocol, unnamed ones too.
    ExtendedAnonymous,
    /// Those of the simple protocol as well.
    Full,
}

impl Default for PreparedStatements {
    fn default() -> (r: Self)
        ensures
            r == PreparedStatements::Extended,
    {
        PreparedStatements::Extended
    }
}

impl PreparedStatements {
    /// Statements of the simple protocol are handled.
    pub fn full(&self) -> (r: bool)
        ensures
            r == (*self == PreparedStatements::Full),
    {
        match self {
            PreparedStatements::Full => true,
            _ => false,
        }
    }
}

/// When queries are parsed.
#[derive(Clone, Copy, Debug, PartialEq, Eq, Structural)]
pub enum QueryParserLevel {
    /// Where routing needs it.
    Auto,
    /// Always.
    On,
    /// Never.
    Off,
    /// Only for statements that control the session.
    SessionControl,
    /// Only for statements that control the session or take advisory locks.
    SessionControlAndLocks,
}

impl Default for QueryParserLevel {
    fn default() -> (r: Self)
        ensures
            r == QueryParserLevel::Auto,
    {
        QueryParserLevel::Auto
    }
}

/// Which parser is used.
#[derive(Clone, Copy, Debug, PartialEq, Eq, Structural)]
pub enum QueryParserEngine {
    /// Through a serialised syntax tree.
    PgQueryProtobuf,
    /// Directly, which needs a large stack.
    PgQueryRaw,
}

impl Default for QueryParserEngine {
    fn default() -> (r: Self)
        ensures
            r == QueryParserEngine::PgQueryProtobuf,
    {
        QueryParserEngine::PgQueryProtobuf
    }
}

/// Users that the configuration does not name may log in with the server's passwords.
#[derive(Clone, Copy, Debug, PartialEq, Eq, Structural)]
pub enum PassthroughAuth {
    /// No.
    Disabled,
    /// Over TLS.
    Enabled,
    /// With plaintext passwords.
    EnabledPlain,
}

impl Default for PassthroughAuth {
    fn default() -> (r: Self)
        ensures
            r == PassthroughAuth::Disabled,
    {
        PassthroughAuth::Disabled
    }
}

/// How much of a server's TLS certificate is verified.
#[derive(Clone, Copy, Debug, PartialEq, Eq, Structural)]
pub enum TlsVerifyMode {
    /// TLS is not used.
    Disabled,
    /// TLS is used where the server has it.
    Prefer,
    /// The issuer is verified.
    VerifyCa,
    /// The issuer and the name are verified.
    VerifyFull,
}

impl Default for TlsVerifyMode {
    fn default() -> (r: Self)
        ensures
            r == TlsVerifyMode::Prefer,
    {
        TlsVerifyMode::Prefer
    }
}

/// Where queries on system catalogs go.
#[derive(Clone, Copy, Debug, PartialEq, Eq, Structural)]
pub enum SystemCatalogsBehavior {
    /// Any shard.
    Omnisharded,
    /// Any shard, the same one for a client.
    OmnishardedSticky,
    /// All shards.
    Sharded,
}

impl Default for SystemCatalogsBehavior {
    fn default() -> (r: Self)
        ensures
            r == SystemCatalogsBehavior::OmnishardedSticky,
    {
        SystemCatalogsBehavior::OmnishardedSticky
    }
}

/// What happens to a connection that was left in the middle of a query.
#[derive(Clone, Copy, Debug, PartialEq, Eq, Structural)]
pub enum ConnectionRecovery {
    /// It is drained and rolled back.
    Recover,
    /// It is rolled back.
    RollbackOnly,
    /// It is dropped.
    Drop,
}

impl Default for ConnectionRecovery {
    fn default() -> (r: Self)
        ensures
            r == ConnectionRecovery::Recover,
    {
        ConnectionRecovery::Recover
    }
}

/// Whether the database schema is loaded at start.
#[derive(Clone, Copy, Debug, PartialEq, Eq, Structural)]
pub enum LoadSchema {
    /// Always.
    On,
    /// Never.
    Off,
    /// Where routing needs it.
    Auto,
}

impl Default for LoadSchema {
    fn default() -> (r: Self)
        ensures
            r == LoadSchema::Auto,
    {
        LoadSchema::Auto
    }
}

/// What to do with a statement that would have to be rewritten.
#[derive(Clone, Copy, Debug, PartialEq, Eq, Structural)]
pub enum RewriteMode {
    /// Refuse it.
    Error,
    /// Rewrite it.
    Rewrite,
    /// Send it as it is.
    Ignore,
}

/// Automatic rewrites of statements for sharded databases.
#[derive(Clone, Copy, Debug, PartialEq, Eq, Structural)]
pub struct Rewrite {
    /// Rewrites are made at all.
    pub enabled: bool,
    /// Updates of a sharding key.
    pub shard_key: RewriteMode,
    /// Inserts of rows that belong to different shards.
    pub split_inserts: RewriteMode,
}

impl Default for Rewrite {
    fn default() -> (r: Self)
        ensures
            r == (Rewrite {
                enabled: false,
                shard_key: RewriteMode::Error,
                split_inserts: RewriteMode::Error,
            }),
    {
        Rewrite {
            enabled: false,
            shard_key: RewriteMode::Error,
            split_inserts: RewriteMode::Error,
        }
    }
}

/// Sizes of buffers and stacks.
#[derive(Clone, Copy, Debug, PartialEq, Eq, Structural)]
pub struct Memory {
    /// Buffer of a network stream.
    pub net_buffer: usize,
    /// Buffer of messages.
    pub message_buffer: usize,
    /// Stack of a worker thread.
    pub stack_size: usize,
}

impl Default for Memory {
    fn default() -> (r: Self)
        ensures
            r == (Memory { net_buffer: 4096, message_buffer: 4096, stack_size: 2_097_152 }),
    {
        Memory { net_buffer: 4096, message_buffer: 4096, stack_size: 2_097_152 }
    }
}

/// Isolation of tenants by a column.
#[derive(Debug, PartialEq, Eq)]
pub struct MultiTenant {
    /// The column.
    pub column: String,
}

impl Clone for MultiTenant {
    fn clone(&self) -> (r: Self)
        ensures
            r == *self,
    {
        MultiTenant { column: self.column.clone() }
    }
}

/// Settings of TCP connections.
#[derive(Clone, Copy, Debug, PartialEq, Eq, Structural)]
pub struct Tcp {
    /// Keep-alives are sent.
    pub keepalive: bool,
    /// Milliseconds before the first one.
    pub time: Option<u64>,
    /// Milliseconds between two.
    pub interval: Option<u64>,
    /// How many are lost before the connection is dead.
    pub retries: Option<u32>,
    /// Milliseconds that sent data may stay unacknowledged.
    pub user_timeout: Option<u64>,
}

impl Default for Tcp {
    fn default() -> (r: Self)
        ensures
            r == (Tcp { keepalive: true, time: None, interval: None, retries: None, user_timeout: None }),
    {
        Tcp { keepalive: true, time: None, interval: None, retries: None, user_timeout: None }
    }
}

/// The share of traffic that is mirrored: the bits of a single-precision number between 0 and 1.
///
/// The share is handed on as it was written; nothing here computes with it.
#[derive(Clone, Copy, Debug, PartialEq, Eq, Structural)]
pub struct Exposure {
    /// The number's bits.
    pub bits: u32,
}

/// General settings.
#[derive(Debug, PartialEq, Eq)]
pub struct General {
    /// Pooler mode.
    pub pooler_mode: PoolerMode,
    /// Handling of prepared statements.
    pub prepared_statements: PreparedStatements,
    /// Old name for `query_parser = "on"`.
    pub query_parser_enabled: bool,
    /// When queries are parsed.
    pub query_parser: QueryParserLevel,
    /// Which parser is used.
    pub query_parser_engine: QueryParserEngine,
    /// Messages that a channel holds; 0 turns `LISTEN` and `NOTIFY` off.
    pub pub_sub_channel_size: usize,
    /// Login of users that the configuration does not name.
    pub passthrough_auth: PassthroughAuth,
    /// Verification of server certificates.
    pub tls_verify: TlsVerifyMode,
    /// File with the certificates of issuers.
    pub tls_server_ca_certificate: Option<String>,
    /// Clients must use TLS.
    pub tls_client_required: bool,
    /// Where queries on system catalogs go.
    pub system_catalogs: SystemCatalogsBehavior,
    /// Milliseconds that a ban lasts.
    pub ban_timeout: u64,
    /// Milliseconds between health checks of idle connections.
    pub idle_healthcheck_interval: u64,
    /// Cross-shard transactions use two-phase commit.
    pub two_phase_commit: bool,
    /// Cross-shard statements outside of a transaction use two-phase commit.
    pub two_phase_commit_auto: Option<bool>,
    /// Separation of reads and writes.
    pub read_write_split: ReadWriteSplit,
    /// How reads are told from writes.
    pub read_write_strategy: ReadWriteStrategy,
    /// Load balancing of reads.
    pub load_balancing_strategy: LoadBalancingStrategy,
    /// Requests that wait to be mirrored.
    pub mirror_queue: usize,
    /// Share of requests that is mirrored.
    pub mirror_exposure: Exposure,
    /// Queries on several shards are refused.
    pub cross_shard_disabled: bool,
    /// Queries are routed for the record only.
    pub dry_run: bool,
    /// `EXPLAIN` says where a query went.
    pub expanded_explain: bool,
    /// Recovery of server connections.
    pub connection_recovery: ConnectionRecovery,
    /// Recovery of client connections.
    pub client_connection_recovery: ConnectionRecovery,
    /// Milliseconds between checks of a server's log position.
    pub lsn_check_interval: u64,
    /// The schema is loaded again after it was changed.
    pub reload_schema_on_ddl: bool,
    /// Whether the schema is loaded.
    pub load_schema: LoadSchema,
    /// Tables that are copied at a time.
    pub resharding_parallel_copies: usize,
    /// How often the copy of a table is tried again.
    pub resharding_copy_retry_max_attempts: usize,
    /// Milliseconds before the copy of a table is tried again.
    pub resharding_copy_retry_min_delay: u64,
    /// Longest query that the session-control matcher looks at.
    pub regex_parser_limit: usize,
}

impl General {
    /// All settings have their default values.
    pub open spec fn is_default(&self) -> bool {
        &&& self.pooler_mode == PoolerMode::Transaction
        &&& self.prepared_statements == PreparedStatements::Extended
        &&& !self.query_parser_enabled
        &&& self.query_parser == QueryParserLevel::Auto
        &&& self.query_parser_engine == QueryParserEngine::PgQueryProtobuf
        &&& self.pub_sub_channel_size == 0
        &&& self.passthrough_auth == PassthroughAuth::Disabled
        &&& self.tls_verify == TlsVerifyMode::Prefer
        &&& self.tls_server_ca_certificate is None
        &&& !self.tls_client_required
        &&& self.system_catalogs == SystemCatalogsBehavior::OmnishardedSticky
        &&& self.ban_timeout == 300_000
        &&& self.idle_healthcheck_interval == 30_000
        &&& !self.two_phase_commit
        &&& self.two_phase_commit_auto is None
        &&& self.read_write_split == ReadWriteSplit::IncludePrimary
        &&& self.read_write_strategy == ReadWriteStrategy::Conservative
        &&& self.load_balancing_strategy == LoadBalancingStrategy::Random
        &&& self.mirror_queue == 128
        &&& self.mirror_exposure.bits == 0x3f80_0000
        &&& !self.cross_shard_disabled
        &&& !self.dry_run
        &&& !self.expanded_explain
        &&& self.connection_recovery == ConnectionRecovery::Recover
        &&& self.client_connection_recovery == ConnectionRecovery::Drop
        &&& self.lsn_check_interval == 1_000
        &&& self.reload_schema_on_ddl
        &&& self.load_schema == LoadSchema::Auto
        &&& self.resharding_parallel_copies == 1
        &&& self.resharding_copy_retry_max_attempts == 5
        &&& self.resharding_copy_retry_min_delay == 1_000
        &&& self.regex_parser_limit == 1_000
    }

    /// `LISTEN` and `NOTIFY` are served.
    pub fn pub_sub_enabled(&self) -> (r: bool)
        ensures
            r == (self.pub_sub_channel_size > 0),
    {
        self.pub_sub_channel_size > 0
    }
}

impl Default for General {
    fn default() -> (r: Self)
        ensures
            r.is_default(),
    {
        General {
            pooler_mode: PoolerMode::Transaction,
            prepared_statements: PreparedStatements::Extended,
            query_parser_enabled: false,
            query_parser: QueryParserLevel::Auto,
            query_parser_engine: QueryParserEngine::PgQueryProtobuf,
            pub_sub_channel_size: 0,
            passthrough_auth: PassthroughAuth::Disabled,
            tls_verify: TlsVerifyMode::Prefer,
            tls_server_ca_certificate: None,
            tls_client_required: false,
            system_catalogs: SystemCatalogsBehavior::OmnishardedSticky,
            ban_timeout: 300_000,
            idle_healthcheck_interval: 30_000,
            two_phase_commit: false,
            two_phase_commit_auto: None,
            read_write_split: ReadWriteSplit::IncludePrimary,
            read_write_strategy: ReadWriteStrategy::Conservative,
            load_balancing_strategy: LoadBalancingStrategy::Random,
            mirror_queue: 128,
            mirror_exposure: Exposure { bits: 0x3f80_0000 },
            cross_shard_disabled: false,
            dry_run: false,
            expanded_explain: false,
            connection_recovery: ConnectionRecovery::Recover,
            client_connection_recovery: ConnectionRecovery::Drop,
            lsn_check_interval: 1_000,
            reload_schema_on_ddl: true,
            load_schema: LoadSchema::Auto,
            resharding_parallel_copies: 1,
            resharding_copy_retry_max_attempts: 5,
            resharding_copy_retry_min_delay: 1_000,
            regex_parser_limit: 1_000,
        }
    }
}

impl Clone for General {
    fn clone(&self) -> (r: Self)
        ensures
            r == *self,
    {
        General {
            pooler_mode: self.pooler_mode,
            prepared_statements: self.prepared_statements,
            query_parser_enabled: self.query_parser_enabled,
            query_parser: self.query_parser,
            query_parser_engine: self.query_parser_engine,
            pub_sub_channel_size: self.pub_sub_channel_size,
            passthrough_auth: self.passthrough_auth,
            tls_verify: self.tls_verify,
            tls_server_ca_certificate: clone_option(&self.tls_server_ca_certificate),
            tls_client_required: self.tls_client_required,
            system_catalogs: self.system_catalogs,
            ban_timeout: self.ban_timeout,
            idle_healthcheck_interval: self.idle_healthcheck_interval,
            two_phase_commit: self.two_phase_commit,
            two_phase_commit_auto: self.two_phase_commit_auto,
            read_write_split: self.read_write_split,
            read_write_strategy: self.read_write_strategy,
            load_balancing_strategy: self.load_balancing_strategy,
            mirror_queue: self.mirror_queue,
            mirror_exposure: self.mirror_exposure,
            cross_shard_disabled: self.cross_shard_disabled,
            dry_run: self.dry_run,
            expanded_explain: self.expanded_explain,
            connection_recovery: self.connection_recovery,
            client_connection_recovery: self.client_connection_recovery,
            lsn_check_interval: self.lsn_check_interval,
            reload_schema_on_ddl: self.reload_schema_on_ddl,
            load_schema: self.load_schema,
            resharding_parallel_copies: self.resharding_parallel_copies,
            resharding_copy_retry_max_attempts: self.resharding_copy_retry_max_attempts,
            resharding_copy_retry_min_delay: self.resharding_copy_retry_min_delay,
            regex_parser_limit: self.regex_parser_limit,
        }
    }
}

/// Which statements are mirrored.
#[derive(Clone, Copy, Debug, PartialEq, Eq, Structural)]
pub enum MirroringLevel {
    /// Those that change the schema.
    Ddl,
    /// Those that do not.
    Dml,
    /// All.
    All,
}

impl Default for MirroringLevel {
    fn default() -> (r: Self)
        ensures
            r == MirroringLevel::All,
    {
        MirroringLevel::All
    }
}

impl MirroringLevel {
    /// How the level is written.
    pub open spec fn shown(&self) -> Seq<char> {
        match self {
            MirroringLevel::Ddl => "ddl"@,
            MirroringLevel::Dml => "dml"@,
            MirroringLevel::All => "all"@,
        }
    }

    /// How the level is written.
    pub fn to_string(&self) -> (r: String)
        ensures
            r@ == self.shown(),
    {
        match self {
            MirroringLevel::Ddl => owned("ddl"),
            MirroringLevel::Dml => owned("dml"),
            MirroringLevel::All => owned("all"),
        }
    }
}

/// Copy of the traffic of one database to another.
#[derive(Debug, PartialEq, Eq)]
pub struct Mirroring {
    /// Where traffic comes from.
    pub source_db: String,
    /// Where it is copied to.
    pub destination_db: String,
    /// Requests that wait to be mirrored, the general setting if not set.
    pub queue_length: Option<usize>,
    /// Share of requests, the general setting if not set.
    pub exposure: Option<Exposure>,
    /// Which statements.
    pub level: MirroringLevel,
}

impl Clone for Mirroring {
    fn clone(&self) -> (r: Self)
        ensures
            r == *self,
    {
        Mirroring {
            source_db: self.source_db.clone(),
            destination_db: self.destination_db.clone(),
            queue_length: self.queue_length,
            exposure: self.exposure,
            level: self.level,
        }
    }
}

/// Mirroring with all settings filled in.
#[derive(Clone, Copy, Debug, PartialEq, Eq, Structural)]
pub struct MirrorConfig {
    /// Requests that wait to be mirrored.
    pub queue_length: usize,
    /// Share of requests.
    pub exposure: Exposure,
    /// Which statements.
    pub level: MirroringLevel,
}

} // verus!
