//! Where the rows of tables live.

use crate::text::{clone_option, owned};
use vstd::prelude::*;

verus! {

/// A table, or a column of any table, that is sharded.
#[derive(Debug, PartialEq, Eq)]
pub struct ShardedTable {
    /// Database of the table.
    pub database: String,
    /// Name of the table, any table if not set.
    pub name: Option<String>,
    /// Schema of the table, any schema if not set.
    pub schema: Option<String>,
    /// Sharding key.
    pub column: String,
}

impl Clone for ShardedTable {
    fn clone(&self) -> (r: Self)
        ensures
            r == *self,
    {
        ShardedTable {
            database: self.database.clone(),
            name: clone_option(&self.name),
            schema: clone_option(&self.schema),
            column: self.column.clone(),
        }
    }
}

/// Tables that hold the same rows on all shards.
#[derive(Debug, PartialEq, Eq)]
pub struct OmnishardedTables {
    /// Database of the tables.
    pub database: String,
    /// Names of the tables.
    pub tables: Vec<String>,
    /// A client reads from one shard only.
    pub sticky: bool,
}

/// A table that holds the same rows on all shards.
#[derive(Debug, PartialEq, Eq)]
pub struct OmnishardedTable {
    /// Name of the table.
    pub name: String,
    /// A client reads from one shard only.
    pub sticky_routing: bool,
}

/// A schema whose tables live on one shard.
#[derive(Debug, PartialEq, Eq)]
pub struct ShardedSchema {
    /// Database of the schema.
    pub database: String,
    /// Name of the schema, any schema if not set.
    pub name: Option<String>,
    /// Shard of the schema.
    pub shard: usize,
}

impl Clone for ShardedSchema {
    fn clone(&self) -> (r: Self)
        ensures
            r == *self,
    {
        ShardedSchema {
            database: self.database.clone(),
            name: clone_option(&self.name),
            shard: self.shard,
        }
    }
}

/// A query that is routed by hand.
#[derive(Debug, PartialEq, Eq)]
pub struct ManualQuery {
    /// Fingerprint of the query.
    pub fingerprint: String,
}

impl Clone for ManualQuery {
    fn clone(&self) -> (r: Self)
        ensures
            r == *self,
    {
        ManualQuery { fingerprint: self.fingerprint.clone() }
    }
}

/// Rows with certain keys live on a certain shard.
#[derive(Debug, PartialEq, Eq)]
pub struct ShardedMapping {
    /// Database of the rows.
    pub database: String,
    /// Sharding key.
    pub column: String,
    /// Table, any table if not set.
    pub table: Option<String>,
    /// Shard of the rows.
    pub shard: usize,
}

impl Clone for ShardedMapping {
    fn clone(&self) -> (r: Self)
        ensures
            r == *self,
    {
        ShardedMapping {
            database: self.database.clone(),
            column: self.column.clone(),
            table: clone_option(&self.table),
            shard: self.shard,
        }
    }
}

/// Names of the system catalogs of Postgres.
pub open spec fn system_catalog_names() -> Seq<Seq<char>> {
    seq![
        "pg_class"@,
        "pg_attribute"@,
        "pg_attrdef"@,
        "pg_index"@,
        "pg_constraint"@,
        "pg_namespace"@,
        "pg_database"@,
        "pg_tablespace"@,
        "pg_type"@,
        "pg_enum"@,
        "pg_range"@,
        "pg_proc"@,
        "pg_operator"@,
        "pg_cast"@,
        "pg_collation"@,
        "pg_language"@,
        "pg_trigger"@,
        "pg_aggregate"@,
        "pg_am"@,
        "pg_roles"@,
        "pg_user"@,
        "pg_authid"@,
        "pg_auth_members"@,
        "pg_depend"@,
        "pg_description"@,
        "pg_extension"@,
        "pg_inherits"@,
        "pg_sequence"@,
        "pg_settings"@,
        "pg_stat_activity"@,
        "pg_tables"@,
        "pg_views"@,
        "pg_indexes"@,
    ]
}

/// Names of the system catalogs of Postgres.
pub fn system_catalogs() -> (r: Vec<String>)
    ensures
        crate::text::views(r@) == system_catalog_names(),
{
    let mut out: Vec<String> = Vec::new();
    out.push(owned("pg_class"));
    out.push(owned("pg_attribute"));
    out.push(owned("pg_attrdef"));
    out.push(owned("pg_index"));
    out.push(owned("pg_constraint"));
    out.push(owned("pg_namespace"));
    out.push(owned("pg_database"));
    out.push(owned("pg_tablespace"));
    out.push(owned("pg_type"));
    out.push(owned("pg_enum"));
    out.push(owned("pg_range"));
    out.push(owned("pg_proc"));
    out.push(owned("pg_operator"));
    out.push(owned("pg_cast"));
    out.push(owned("pg_collation"));
    out.push(owned("pg_language"));
    out.push(owned("pg_trigger"));
    out.push(owned("pg_aggregate"));
    out.push(owned("pg_am"));
    out.push(owned("pg_roles"));
    out.push(owned("pg_user"));
    out.push(owned("pg_authid"));
    out.push(owned("pg_auth_members"));
    out.push(owned("pg_depend"));
    out.push(owned("pg_description"));
    out.push(owned("pg_extension"));
    out.push(owned("pg_inherits"));
    out.push(owned("pg_sequence"));
    out.push(owned("pg_settings"));
    out.push(owned("pg_stat_activity"));
    out.push(owned("pg_tables"));
    out.push(owned("pg_views"));
    out.push(owned("pg_indexes"));
    assert(crate::text::views(out@) == system_catalog_names());
    out
}

} // verus!
