//! The whole configuration.

use crate::config::database::{Database, EnumeratedDatabase};
use crate::config::general::{
    General, Memory, MirrorConfig, Mirroring, MultiTenant, Rewrite, SystemCatalogsBehavior, Tcp,
};
#[allow(unused_imports)]
use crate::config::general::RewriteMode;
use crate::config::sharding::{
    system_catalogs, ManualQuery, OmnishardedTable, OmnishardedTables, ShardedMapping,
    ShardedSchema, ShardedTable,
};
#[allow(unused_imports)]
use crate::config::sharding::system_catalog_names;
use crate::config::users::{Admin, Plugin};
#[allow(unused_imports)]
use crate::text::{opt_view, views};
use crate::text::{clone_option, owned, same, same_option};
use vstd::hash_map::StringHashMap;
use vstd::prelude::*;

verus! {

/// Contents of the main configuration file.
#[derive(Debug, PartialEq, Eq)]
pub struct Config {
    /// Settings of the pooler itself.
    pub general: General,
    /// Automatic rewrites.
    pub rewrite: Rewrite,
    /// TCP connections.
    pub tcp: Tcp,
    /// Isolation of tenants.
    pub multi_tenant: Option<MultiTenant>,
    /// All databases.
    pub databases: Vec<Database>,
    /// Plugins.
    pub plugins: Vec<Plugin>,
    /// Access to the admin database.
    pub admin: Admin,
    /// Sharded tables.
    pub sharded_tables: Vec<ShardedTable>,
    /// Queries routed by hand.
    pub manual_queries: Vec<ManualQuery>,
    /// Tables that are the same on all shards.
    pub omnisharded_tables: Vec<OmnishardedTables>,
    /// Keys that live on certain shards.
    pub sharded_mappings: Vec<ShardedMapping>,
    /// Schemas that live on certain shards.
    pub sharded_schemas: Vec<ShardedSchema>,
    /// How far replicas may lag behind, as it is written in the file. Nothing here looks into it.
    pub replica_lag: Option<String>,
    /// Settings of replication, as they are written in the file. Nothing here looks into them.
    pub replication: Option<String>,
    /// Mirrored databases.
    pub mirroring: Vec<Mirroring>,
    /// Sizes of buffers and stacks.
    pub memory: Memory,
    /// Where measurements are sent, as it is written in the file. Nothing here looks into it.
    pub otel: Option<String>,
}

impl Config {
    /// All settings have their default values and nothing is listed. The password of the admin
    /// database has none.
    pub open spec fn is_default(&self) -> bool {
        &&& self.general.is_default()
        &&& self.rewrite == (Rewrite {
            enabled: false,
            shard_key: RewriteMode::Error,
            split_inserts: RewriteMode::Error,
        })
        &&& self.tcp == (Tcp {
            keepalive: true,
            time: None,
            interval: None,
            retries: None,
            user_timeout: None,
        })
        &&& self.multi_tenant is None
        &&& self.databases@.len() == 0
        &&& self.plugins@.len() == 0
        &&& self.admin.name@ == "admin"@
        &&& self.admin.user@ == "pgdog"@
        &&& self.sharded_tables@.len() == 0
        &&& self.manual_queries@.len() == 0
        &&& self.omnisharded_tables@.len() == 0
        &&& self.sharded_mappings@.len() == 0
        &&& self.sharded_schemas@.len() == 0
        &&& self.replica_lag is None
        &&& self.replication is None
        &&& self.mirroring@.len() == 0
        &&& self.memory == (Memory {
            net_buffer: 4096,
            message_buffer: 4096,
            stack_size: 2_097_152,
        })
        &&& self.otel is None
    }
}

impl Default for Config {
    fn default() -> (r: Self)
        ensures
            r.is_default(),
            r.admin.password@.len() == 0,
    {
        Config {
            general: General::default(),
            rewrite: Rewrite::default(),
            tcp: Tcp::default(),
            multi_tenant: None,
            databases: Vec::new(),
            plugins: Vec::new(),
            admin: Admin { name: owned("admin"), user: owned("pgdog"), password: String::new() },
            sharded_tables: Vec::new(),
            manual_queries: Vec::new(),
            omnisharded_tables: Vec::new(),
            sharded_mappings: Vec::new(),
            sharded_schemas: Vec::new(),
            replica_lag: None,
            replication: None,
            mirroring: Vec::new(),
            memory: Memory::default(),
            otel: None,
        }
    }
}

/// An entry that belongs to a database.
pub trait Keyed: Sized {
    /// Name of the database.
    spec fn key(&self) -> Seq<char>;

    /// Name of the database.
    fn key_text(&self) -> (r: &str)
        ensures
            r@ == self.key(),
    ;

    /// A copy of the entry.
    fn copy(&self) -> (r: Self)
        ensures
            r == *self,
    ;
}

impl Keyed for ShardedTable {
    open spec fn key(&self) -> Seq<char> {
        self.database@
    }

    fn key_text(&self) -> (r: &str) {
        self.database.as_str()
    }

    fn copy(&self) -> (r: Self) {
        self.clone()
    }
}

impl Keyed for ShardedSchema {
    open spec fn key(&self) -> Seq<char> {
        self.database@
    }

    fn key_text(&self) -> (r: &str) {
        self.database.as_str()
    }

    fn copy(&self) -> (r: Self) {
        self.clone()
    }
}

/// The entry belongs to this database.
pub open spec fn of_database<T: Keyed>(name: Seq<char>) -> spec_fn(T) -> bool {
    |t: T| t.key() == name
}

/// The entries of one database, in the order in which they were written.
pub open spec fn entries_of<T: Keyed>(items: Seq<T>, name: Seq<char>) -> Seq<T> {
    items.filter(of_database::<T>(name))
}

fn collect_entries<T: Keyed>(items: &Vec<T>, name: &str) -> (r: Vec<T>)
    ensures
        r@ == entries_of(items@, name@),
{
    let mut out: Vec<T> = Vec::new();
    let ghost keep = of_database::<T>(name@);
    assert(items@.take(0).filter(keep) == Seq::<T>::empty()) by {
        reveal(Seq::filter);
    }
    for i in 0..items.len()
        invariant
            keep == of_database::<T>(name@),
            out@ == items@.take(i as int).filter(keep),
    {
        proof {
            reveal(Seq::filter);
            assert(items@.take(i + 1).drop_last() == items@.take(i as int));
        }
        if same(items[i].key_text(), name) {
            out.push(items[i].copy());
        }
    }
    assert(items@.take(items@.len() as int) == items@);
    out
}

/// The entries, organised by database.
pub open spec fn grouped<T: Keyed>(items: Seq<T>, r: Map<Seq<char>, Vec<T>>) -> bool {
    &&& forall|n: Seq<char>| #[trigger]
        r.contains_key(n) <==> exists|i: int| 0 <= i < items.len() && (#[trigger] items[i]).key() == n
    &&& forall|n: Seq<char>| #[trigger] r.contains_key(n) ==> r[n]@ == entries_of(items, n)
}

fn group<T: Keyed>(items: &Vec<T>) -> (r: StringHashMap<Vec<T>>)
    ensures
        grouped(items@, r@),
{
    let mut out: StringHashMap<Vec<T>> = StringHashMap::new();
    for i in 0..items.len()
        invariant
            forall|n: Seq<char>| #[trigger]
                out@.contains_key(n) <==> exists|j: int|
                    0 <= j < i && (#[trigger] items@[j]).key() == n,
            forall|n: Seq<char>| #[trigger]
                out@.contains_key(n) ==> out@[n]@ == entries_of(items@, n),
    {
        let name = owned(items[i].key_text());
        if !out.contains_key(name.as_str()) {
            let entries = collect_entries(items, name.as_str());
            out.insert(name, entries);
        }
    }
    out
}

/// The databases with their numbers.
pub open spec fn enumerated(databases: Seq<Database>) -> Seq<EnumeratedDatabase> {
    Seq::new(
        databases.len(),
        |i: int| EnumeratedDatabase { number: i as usize, database: databases[i] },
    )
}

/// The server is part of this shard of this database.
pub open spec fn of_shard(name: Seq<char>, shard: int) -> spec_fn(EnumeratedDatabase) -> bool {
    |d: EnumeratedDatabase| d.database.name@ == name && d.database.shard == shard
}

/// The servers of one shard of one database, in the order in which they were written.
pub open spec fn servers_of(databases: Seq<Database>, name: Seq<char>, shard: int) -> Seq<
    EnumeratedDatabase,
> {
    enumerated(databases).filter(of_shard(name, shard))
}

/// How many shards a database has: one more than its highest shard number.
pub open spec fn shards_of(databases: Seq<Database>, name: Seq<char>) -> nat
    decreases databases.len(),
{
    if databases.len() == 0 {
        0
    } else {
        let before = shards_of(databases.drop_last(), name);
        let last = databases.last();
        if last.name@ == name && last.shard + 1 > before {
            (last.shard + 1) as nat
        } else {
            before
        }
    }
}

/// A database of this name is configured.
pub open spec fn has_database(databases: Seq<Database>, name: Seq<char>) -> bool {
    exists|i: int| 0 <= i < databases.len() && (#[trigger] databases[i]).name@ == name
}

fn collect_servers(databases: &Vec<Database>, name: &str, shard: usize) -> (r: Vec<
    EnumeratedDatabase,
>)
    ensures
        r@ == servers_of(databases@, name@, shard as int),
{
    let mut out: Vec<EnumeratedDatabase> = Vec::new();
    let ghost all = enumerated(databases@);
    let ghost keep = of_shard(name@, shard as int);
    assert(all.take(0).filter(keep) == Seq::<EnumeratedDatabase>::empty()) by {
        reveal(Seq::filter);
    }
    for i in 0..databases.len()
        invariant
            all == enumerated(databases@),
            keep == of_shard(name@, shard as int),
            out@ == all.take(i as int).filter(keep),
    {
        proof {
            reveal(Seq::filter);
            assert(all.take(i + 1).drop_last() == all.take(i as int));
            assert(all.take(i + 1).last() == (EnumeratedDatabase {
                number: i,
                database: databases@[i as int],
            }));
        }
        if same(databases[i].name.as_str(), name) && databases[i].shard == shard {
            out.push(EnumeratedDatabase { number: i, database: databases[i].clone() });
        }
    }
    assert(all.take(databases@.len() as int) == all);
    out
}

fn collect_shards(databases: &Vec<Database>, name: &str) -> (r: Vec<Vec<EnumeratedDatabase>>)
    ensures
        r@.len() == shards_of(databases@, name@),
        forall|s: int|
            0 <= s < r@.len() ==> (#[trigger] r@[s])@ == servers_of(databases@, name@, s),
{
    let mut out: Vec<Vec<EnumeratedDatabase>> = Vec::new();
    for i in 0..databases.len()
        invariant
            out@.len() == shards_of(databases@.take(i as int), name@),
            forall|s: int|
                0 <= s < out@.len() ==> (#[trigger] out@[s])@ == servers_of(
                    databases@,
                    name@,
                    s,
                ),
    {
        proof {
            assert(databases@.take(i + 1).drop_last() == databases@.take(i as int));
            assert(databases@.take(i + 1).last() == databases@[i as int]);
        }
        if same(databases[i].name.as_str(), name) {
            let shard: usize = databases[i].shard;
            let ghost before = out@.len();
            while out.len() <= shard
                invariant
                    before <= out@.len(),
                    out@.len() <= before || out@.len() <= shard + 1,
                    forall|s: int|
                        0 <= s < out@.len() ==> (#[trigger] out@[s])@ == servers_of(
                            databases@,
                            name@,
                            s,
                        ),
                decreases shard + 1 - out@.len(),
            {
                let number: usize = out.len();
                let servers = collect_servers(databases, name, number);
                out.push(servers);
            }
        }
    }
    assert(databases@.take(databases@.len() as int) == databases@);
    out
}

/// Mapped keys that share database, column and table.
#[derive(Debug, PartialEq, Eq)]
pub struct MappingGroup {
    /// Database of the rows.
    pub database: String,
    /// Sharding key.
    pub column: String,
    /// Table, any table if not set.
    pub table: Option<String>,
    /// The mappings.
    pub mappings: Vec<ShardedMapping>,
}

/// What a mapping applies to.
pub open spec fn mapping_key(m: ShardedMapping) -> (Seq<char>, Seq<char>, Option<Seq<char>>) {
    (m.database@, m.column@, opt_view(m.table))
}

/// What the mappings of a group apply to.
pub open spec fn group_key(g: MappingGroup) -> (Seq<char>, Seq<char>, Option<Seq<char>>) {
    (g.database@, g.column@, opt_view(g.table))
}

/// One of the groups applies to this.
pub open spec fn has_group(
    groups: Seq<MappingGroup>,
    key: (Seq<char>, Seq<char>, Option<Seq<char>>),
) -> bool {
    exists|i: int| 0 <= i < groups.len() && group_key(#[trigger] groups[i]) == key
}

proof fn lemma_has_group_take(
    groups: Seq<MappingGroup>,
    i: int,
    key: (Seq<char>, Seq<char>, Option<Seq<char>>),
)
    requires
        0 <= i < groups.len(),
    ensures
        has_group(groups.take(i + 1), key) <==> has_group(groups.take(i), key) || group_key(
            groups[i],
        ) == key,
{
    if has_group(groups.take(i), key) {
        let j = choose|j: int| 0 <= j < i && group_key(#[trigger] groups.take(i)[j]) == key;
        assert(groups.take(i + 1)[j] == groups.take(i)[j]);
    }
    if group_key(groups[i]) == key {
        assert(groups.take(i + 1)[i] == groups[i]);
    }
    if has_group(groups.take(i + 1), key) {
        let j = choose|j: int|
            0 <= j < i + 1 && group_key(#[trigger] groups.take(i + 1)[j]) == key;
        if j < i {
            assert(groups.take(i)[j] == groups.take(i + 1)[j]);
        }
    }
}

/// The mappings that apply to one thing, in the order in which they were written.
pub open spec fn mappings_for(
    items: Seq<ShardedMapping>,
    key: (Seq<char>, Seq<char>, Option<Seq<char>>),
) -> Seq<ShardedMapping> {
    items.filter(|m: ShardedMapping| mapping_key(m) == key)
}

fn same_key(a: &ShardedMapping, b: &ShardedMapping) -> (r: bool)
    ensures
        r == (mapping_key(*a) == mapping_key(*b)),
{
    same(a.database.as_str(), b.database.as_str()) && same(a.column.as_str(), b.column.as_str())
        && same_option(&a.table, &b.table)
}

fn collect_mappings(items: &Vec<ShardedMapping>, like: &ShardedMapping) -> (r: Vec<ShardedMapping>)
    ensures
        r@ == mappings_for(items@, mapping_key(*like)),
{
    let mut out: Vec<ShardedMapping> = Vec::new();
    let ghost key = mapping_key(*like);
    let ghost keep = |m: ShardedMapping| mapping_key(m) == key;
    assert(items@.take(0).filter(keep) == Seq::<ShardedMapping>::empty()) by {
        reveal(Seq::filter);
    }
    for i in 0..items.len()
        invariant
            key == mapping_key(*like),
            keep == (|m: ShardedMapping| mapping_key(m) == key),
            out@ == items@.take(i as int).filter(keep),
    {
        proof {
            reveal(Seq::filter);
            assert(items@.take(i + 1).drop_last() == items@.take(i as int));
        }
        if same_key(&items[i], like) {
            out.push(items[i].clone());
        }
    }
    assert(items@.take(items@.len() as int) == items@);
    out
}

/// Names and routing of a list of tables.
pub open spec fn omni_views(tables: Seq<OmnishardedTable>) -> Seq<(Seq<char>, bool)> {
    tables.map_values(|t: OmnishardedTable| (t.name@, t.sticky_routing))
}

/// The tables that one entry names.
pub open spec fn entry_tables(entry: OmnishardedTables) -> Seq<(Seq<char>, bool)> {
    entry.tables@.map_values(|t: String| (t@, entry.sticky))
}

/// The tables that the entries name for one database, in the order in which they were written.
pub open spec fn listed_tables(entries: Seq<OmnishardedTables>, name: Seq<char>) -> Seq<
    (Seq<char>, bool),
>
    decreases entries.len(),
{
    if entries.len() == 0 {
        Seq::empty()
    } else if entries.last().database@ == name {
        listed_tables(entries.drop_last(), name) + entry_tables(entries.last())
    } else {
        listed_tables(entries.drop_last(), name)
    }
}

/// A table of this name is in the list.
pub open spec fn names_table(tables: Seq<(Seq<char>, bool)>, name: Seq<char>) -> bool {
    exists|i: int| 0 <= i < tables.len() && (#[trigger] tables[i]).0 == name
}

/// The list with each of the catalogs that it does not name yet at the end.
pub open spec fn with_catalogs(
    tables: Seq<(Seq<char>, bool)>,
    catalogs: Seq<Seq<char>>,
    sticky: bool,
) -> Seq<(Seq<char>, bool)>
    decreases catalogs.len(),
{
    if catalogs.len() == 0 {
        tables
    } else {
        let before = with_catalogs(tables, catalogs.drop_last(), sticky);
        if names_table(before, catalogs.last()) {
            before
        } else {
            before.push((catalogs.last(), sticky))
        }
    }
}

fn collect_listed(entries: &Vec<OmnishardedTables>, name: &str) -> (r: Vec<OmnishardedTable>)
    ensures
        omni_views(r@) == listed_tables(entries@, name@),
{
    let mut out: Vec<OmnishardedTable> = Vec::new();
    for i in 0..entries.len()
        invariant
            omni_views(out@) == listed_tables(entries@.take(i as int), name@),
    {
        proof {
            assert(entries@.take(i + 1).drop_last() == entries@.take(i as int));
            assert(entries@.take(i + 1).last() == entries@[i as int]);
        }
        if same(entries[i].database.as_str(), name) {
            let entry = &entries[i];
            let ghost before = omni_views(out@);
            assert(before + entry_tables(*entry).take(0) == before);
            for k in 0..entry.tables.len()
                invariant
                    omni_views(out@) == before + entry_tables(*entry).take(k as int),
            {
                let ghost known = out@;
                let table = OmnishardedTable {
                    name: entry.tables[k].clone(),
                    sticky_routing: entry.sticky,
                };
                out.push(table);
                assert(omni_views(out@) == omni_views(known).push(
                    entry_tables(*entry)[k as int],
                ));
                assert(entry_tables(*entry).take(k + 1) == entry_tables(*entry).take(
                    k as int,
                ).push(entry_tables(*entry)[k as int]));
            }
            assert(entry_tables(*entry).take(entry.tables@.len() as int) == entry_tables(*entry));
        }
    }
    assert(entries@.take(entries@.len() as int) == entries@);
    out
}

fn lists_table(tables: &Vec<OmnishardedTable>, name: &str) -> (r: bool)
    ensures
        r == names_table(omni_views(tables@), name@),
{
    let ghost all = omni_views(tables@);
    for i in 0..tables.len()
        invariant
            all == omni_views(tables@),
            forall|j: int| 0 <= j < i ==> (#[trigger] all[j]).0 != name@,
    {
        if same(tables[i].name.as_str(), name) {
            assert(all[i as int].0 == name@);
            return true;
        }
    }
    false
}

fn append_catalogs(tables: &mut Vec<OmnishardedTable>, sticky: bool)
    ensures
        omni_views(final(tables)@) == with_catalogs(
            omni_views(old(tables)@),
            system_catalog_names(),
            sticky,
        ),
{
    let catalogs = system_catalogs();
    let ghost names = views(catalogs@);
    let ghost start = omni_views(tables@);
    for i in 0..catalogs.len()
        invariant
            names == views(catalogs@),
            start == omni_views(old(tables)@),
            omni_views(tables@) == with_catalogs(start, names.take(i as int), sticky),
    {
        proof {
            assert(names.take(i + 1).drop_last() == names.take(i as int));
            assert(names.take(i + 1).last() == catalogs@[i as int]@);
        }
        if !lists_table(tables, catalogs[i].as_str()) {
            let ghost known = tables@;
            let table = OmnishardedTable { name: catalogs[i].clone(), sticky_routing: sticky };
            tables.push(table);
            assert(omni_views(tables@) == omni_views(known).push((catalogs@[i as int]@, sticky)));
        }
    }
    assert(names.take(catalogs@.len() as int) == names);
}

/// The tables of one database that are the same on all shards.
pub open spec fn omnisharded_of(config: Config, name: Seq<char>) -> Seq<(Seq<char>, bool)> {
    let listed = listed_tables(config.omnisharded_tables@, name);
    if config.general.system_catalogs != SystemCatalogsBehavior::Sharded && has_database(
        config.databases@,
        name,
    ) {
        with_catalogs(
            listed,
            system_catalog_names(),
            config.general.system_catalogs == SystemCatalogsBehavior::OmnishardedSticky,
        )
    } else {
        listed
    }
}

/// Some tables of this database are the same on all shards, or may be.
pub open spec fn has_omnisharded(config: Config, name: Seq<char>) -> bool {
    ||| exists|i: int|
        0 <= i < config.omnisharded_tables@.len() && (
        #[trigger] config.omnisharded_tables@[i]).database@ == name
    ||| config.general.system_catalogs != SystemCatalogsBehavior::Sharded && has_database(
        config.databases@,
        name,
    )
}

/// The last of the queries with this fingerprint.
pub open spec fn last_query(queries: Seq<ManualQuery>, fingerprint: Seq<char>) -> Option<
    ManualQuery,
>
    decreases queries.len(),
{
    if queries.len() == 0 {
        None
    } else if queries.last().fingerprint@ == fingerprint {
        Some(queries.last())
    } else {
        last_query(queries.drop_last(), fingerprint)
    }
}

/// The settings of a mirror, with the general ones filled in.
pub open spec fn mirror_settings(general: General, m: Mirroring) -> MirrorConfig {
    MirrorConfig {
        queue_length: match m.queue_length {
            Some(n) => n,
            None => general.mirror_queue,
        },
        exposure: match m.exposure {
            Some(e) => e,
            None => general.mirror_exposure,
        },
        level: m.level,
    }
}

/// The first mirror between two databases.
pub open spec fn first_mirror(
    general: General,
    mirroring: Seq<Mirroring>,
    source: Seq<char>,
    destination: Seq<char>,
) -> Option<MirrorConfig>
    decreases mirroring.len(),
{
    if mirroring.len() == 0 {
        None
    } else if mirroring[0].source_db@ == source && mirroring[0].destination_db@ == destination {
        Some(mirror_settings(general, mirroring[0]))
    } else {
        first_mirror(general, mirroring.skip(1), source, destination)
    }
}

/// Destinations and settings of all mirrors of one database.
pub open spec fn mirrors_of(general: General, mirroring: Seq<Mirroring>, source: Seq<char>) -> Seq<
    (Seq<char>, MirrorConfig),
>
    decreases mirroring.len(),
{
    if mirroring.len() == 0 {
        Seq::empty()
    } else if mirroring.last().source_db@ == source {
        mirrors_of(general, mirroring.drop_last(), source).push(
            (mirroring.last().destination_db@, mirror_settings(general, mirroring.last())),
        )
    } else {
        mirrors_of(general, mirroring.drop_last(), source)
    }
}

/// Destinations and settings.
pub open spec fn mirror_views(mirrors: Seq<(String, MirrorConfig)>) -> Seq<
    (Seq<char>, MirrorConfig),
> {
    mirrors.map_values(|m: (String, MirrorConfig)| (m.0@, m.1))
}

/// What becomes of a name when two names are swapped.
pub open spec fn swapped(name: Seq<char>, source: Seq<char>, destination: Seq<char>) -> Seq<char> {
    if name == source {
        destination
    } else if name == destination {
        source
    } else {
        name
    }
}

fn swap_name(name: &mut String, source: &str, destination: &str)
    ensures
        final(name)@ == swapped(old(name)@, source@, destination@),
{
    if same(name.as_str(), source) {
        *name = owned(destination);
    } else if same(name.as_str(), destination) {
        *name = owned(source);
    }
}

/// `after` is `before` with two database names swapped wherever an entry refers to one of them.
pub open spec fn cut_over(
    before: Config,
    after: Config,
    source: Seq<char>,
    destination: Seq<char>,
) -> bool {
    &&& after == (Config {
        databases: after.databases,
        sharded_mappings: after.sharded_mappings,
        sharded_tables: after.sharded_tables,
        omnisharded_tables: after.omnisharded_tables,
        mirroring: after.mirroring,
        ..before
    })
    &&& after.databases@.len() == before.databases@.len()
    &&& forall|i: int| 0 <= i < before.databases@.len() ==> {
        let (a, b) = (#[trigger] after.databases@[i], before.databases@[i]);
        a.name@ == swapped(b.name@, source, destination) && a == (Database { name: a.name, ..b })
    }
    &&& after.sharded_mappings@.len() == before.sharded_mappings@.len()
    &&& forall|i: int| 0 <= i < before.sharded_mappings@.len() ==> {
        let (a, b) = (#[trigger] after.sharded_mappings@[i], before.sharded_mappings@[i]);
        a.database@ == swapped(b.database@, source, destination) && a == (ShardedMapping {
            database: a.database,
            ..b
        })
    }
    &&& after.sharded_tables@.len() == before.sharded_tables@.len()
    &&& forall|i: int| 0 <= i < before.sharded_tables@.len() ==> {
        let (a, b) = (#[trigger] after.sharded_tables@[i], before.sharded_tables@[i]);
        a.database@ == swapped(b.database@, source, destination) && a == (ShardedTable {
            database: a.database,
            ..b
        })
    }
    &&& after.omnisharded_tables@.len() == before.omnisharded_tables@.len()
    &&& forall|i: int| 0 <= i < before.omnisharded_tables@.len() ==> {
        let (a, b) = (#[trigger] after.omnisharded_tables@[i], before.omnisharded_tables@[i]);
        a.database@ == swapped(b.database@, source, destination) && a == (OmnishardedTables {
            database: a.database,
            ..b
        })
    }
    &&& after.mirroring@.len() == before.mirroring@.len()
    &&& forall|i: int| 0 <= i < before.mirroring@.len() ==> {
        let (a, b) = (#[trigger] after.mirroring@[i], before.mirroring@[i]);
        a.source_db@ == swapped(b.source_db@, source, destination) && a.destination_db@
            == swapped(b.destination_db@, source, destination) && a == (Mirroring {
            source_db: a.source_db,
            destination_db: a.destination_db,
            ..b
        })
    }
}

impl Config {
    /// The servers of each shard of each database.
    pub fn databases(&self) -> (r: StringHashMap<Vec<Vec<EnumeratedDatabase>>>)
        ensures
            forall|n: Seq<char>| #[trigger]
                r@.contains_key(n) <==> has_database(self.databases@, n),
            forall|n: Seq<char>| #[trigger]
                r@.contains_key(n) ==> r@[n]@.len() == shards_of(self.databases@, n),
            forall|n: Seq<char>, s: int|
                r@.contains_key(n) && 0 <= s < r@[n]@.len() ==> (#[trigger] r@[n]@[s])@
                    == servers_of(self.databases@, n, s),
    {
        let mut out: StringHashMap<Vec<Vec<EnumeratedDatabase>>> = StringHashMap::new();
        for i in 0..self.databases.len()
            invariant
                forall|n: Seq<char>| #[trigger]
                    out@.contains_key(n) <==> exists|j: int|
                        0 <= j < i && (#[trigger] self.databases@[j]).name@ == n,
                forall|n: Seq<char>| #[trigger]
                    out@.contains_key(n) ==> out@[n]@.len() == shards_of(self.databases@, n),
                forall|n: Seq<char>, s: int|
                    out@.contains_key(n) && 0 <= s < out@[n]@.len() ==> (#[trigger] out@[n]@[s])@
                        == servers_of(self.databases@, n, s),
        {
            let name = self.databases[i].name.clone();
            if !out.contains_key(name.as_str()) {
                let shards = collect_shards(&self.databases, name.as_str());
                out.insert(name, shards);
            }
        }
        out
    }

    /// Sharded tables by database.
    pub fn sharded_tables(&self) -> (r: StringHashMap<Vec<ShardedTable>>)
        ensures
            grouped(self.sharded_tables@, r@),
    {
        group(&self.sharded_tables)
    }

    /// Tables that are the same on all shards, by database. System catalogs are among them unless
    /// the configuration says otherwise.
    pub fn omnisharded_tables(&self) -> (r: StringHashMap<Vec<OmnishardedTable>>)
        ensures
            forall|n: Seq<char>| #[trigger] r@.contains_key(n) <==> has_omnisharded(*self, n),
            forall|n: Seq<char>| #[trigger]
                r@.contains_key(n) ==> omni_views(r@[n]@) == omnisharded_of(*self, n),
    {
        let mut out: StringHashMap<Vec<OmnishardedTable>> = StringHashMap::new();
        for i in 0..self.omnisharded_tables.len()
            invariant
                forall|n: Seq<char>| #[trigger]
                    out@.contains_key(n) <==> exists|j: int|
                        0 <= j < i && (#[trigger] self.omnisharded_tables@[j]).database@ == n,
                forall|n: Seq<char>| #[trigger]
                    out@.contains_key(n) ==> omni_views(out@[n]@) == omnisharded_of(*self, n),
        {
            let name = self.omnisharded_tables[i].database.clone();
            if !out.contains_key(name.as_str()) {
                let tables = self.collect_omnisharded(name.as_str());
                out.insert(name, tables);
            }
        }
        if self.general.system_catalogs != SystemCatalogsBehavior::Sharded {
            for i in 0..self.databases.len()
                invariant
                    forall|n: Seq<char>| #[trigger]
                        out@.contains_key(n) <==> (exists|j: int|
                            0 <= j < self.omnisharded_tables@.len() && (
                            #[trigger] self.omnisharded_tables@[j]).database@ == n) || (exists|j: int|
                            0 <= j < i && (#[trigger] self.databases@[j]).name@ == n),
                    forall|n: Seq<char>| #[trigger]
                        out@.contains_key(n) ==> omni_views(out@[n]@) == omnisharded_of(*self, n),
            {
                let name = self.databases[i].name.clone();
                if !out.contains_key(name.as_str()) {
                    let tables = self.collect_omnisharded(name.as_str());
                    out.insert(name, tables);
                }
            }
        }
        out
    }

    fn names_database(&self, name: &str) -> (r: bool)
        ensures
            r == has_database(self.databases@, name@),
    {
        for i in 0..self.databases.len()
            invariant
                forall|j: int| 0 <= j < i ==> (#[trigger] self.databases@[j]).name@ != name@,
        {
            if same(self.databases[i].name.as_str(), name) {
                return true;
            }
        }
        false
    }

    fn collect_omnisharded(&self, name: &str) -> (r: Vec<OmnishardedTable>)
        ensures
            omni_views(r@) == omnisharded_of(*self, name@),
    {
        let mut tables = collect_listed(&self.omnisharded_tables, name);
        if self.general.system_catalogs != SystemCatalogsBehavior::Sharded && self.names_database(
            name,
        ) {
            let sticky = self.general.system_catalogs == SystemCatalogsBehavior::OmnishardedSticky;
            append_catalogs(&mut tables, sticky);
        }
        tables
    }

    /// Sharded schemas by database.
    pub fn sharded_schemas(&self) -> (r: StringHashMap<Vec<ShardedSchema>>)
        ensures
            grouped(self.sharded_schemas@, r@),
    {
        group(&self.sharded_schemas)
    }

    /// Queries routed by hand, by fingerprint; of two with one fingerprint the later one counts.
    pub fn manual_queries(&self) -> (r: StringHashMap<ManualQuery>)
        ensures
            forall|f: Seq<char>| #[trigger]
                r@.contains_key(f) <==> last_query(self.manual_queries@, f) is Some,
            forall|f: Seq<char>| #[trigger]
                r@.contains_key(f) ==> last_query(self.manual_queries@, f) == Some(r@[f]),
    {
        let mut out: StringHashMap<ManualQuery> = StringHashMap::new();
        for i in 0..self.manual_queries.len()
            invariant
                forall|f: Seq<char>| #[trigger]
                    out@.contains_key(f) <==> last_query(
                        self.manual_queries@.take(i as int),
                        f,
                    ) is Some,
                forall|f: Seq<char>| #[trigger]
                    out@.contains_key(f) ==> last_query(self.manual_queries@.take(i as int), f)
                        == Some(out@[f]),
        {
            let query = self.manual_queries[i].clone();
            proof {
                assert(self.manual_queries@.take(i + 1).drop_last() == self.manual_queries@.take(
                    i as int,
                ));
                assert(self.manual_queries@.take(i + 1).last() == query);
            }
            out.insert(query.fingerprint.clone(), query);
        }
        assert(self.manual_queries@.take(self.manual_queries@.len() as int)
            == self.manual_queries@);
        out
    }

    /// Sharded mappings, one group for each database, column and table.
    pub fn sharded_mappings(&self) -> (r: Vec<MappingGroup>)
        ensures
            forall|i: int, j: int|
                0 <= i < j < r@.len() ==> group_key(#[trigger] r@[i]) != group_key(
                    #[trigger] r@[j],
                ),
            forall|i: int|
                0 <= i < r@.len() ==> (#[trigger] r@[i]).mappings@ == mappings_for(
                    self.sharded_mappings@,
                    group_key(r@[i]),
                ) && r@[i].mappings@.len() > 0,
            forall|k: int|
                0 <= k < self.sharded_mappings@.len() ==> has_group(
                    r@,
                    mapping_key(#[trigger] self.sharded_mappings@[k]),
                ),
    {
        let mut out: Vec<MappingGroup> = Vec::new();
        for i in 0..self.sharded_mappings.len()
            invariant
                forall|a: int, b: int|
                    0 <= a < b < out@.len() ==> group_key(#[trigger] out@[a]) != group_key(
                        #[trigger] out@[b],
                    ),
                forall|a: int|
                    0 <= a < out@.len() ==> (#[trigger] out@[a]).mappings@ == mappings_for(
                        self.sharded_mappings@,
                        group_key(out@[a]),
                    ) && out@[a].mappings@.len() > 0,
                forall|k: int|
                    0 <= k < i ==> has_group(
                        out@,
                        mapping_key(#[trigger] self.sharded_mappings@[k]),
                    ),
        {
            let mapping = &self.sharded_mappings[i];
            let mut known = false;
            for a in 0..out.len()
                invariant
                    known <==> has_group(out@.take(a as int), mapping_key(*mapping)),
            {
                if same(out[a].database.as_str(), mapping.database.as_str()) && same(
                    out[a].column.as_str(),
                    mapping.column.as_str(),
                ) && same_option(&out[a].table, &mapping.table) {
                    assert(group_key(out@.take(a + 1)[a as int]) == mapping_key(*mapping));
                    known = true;
                } else {
                    assert(group_key(out@[a as int]) != mapping_key(*mapping));
                }
                proof {
                    lemma_has_group_take(out@, a as int, mapping_key(*mapping));
                }
            }
            assert(out@.take(out@.len() as int) == out@);
            if !known {
                let mappings = collect_mappings(&self.sharded_mappings, mapping);
                proof {
                    let key = mapping_key(*mapping);
                    let keep = |m: ShardedMapping| mapping_key(m) == key;
                    self.sharded_mappings@.lemma_filter_contains(keep, i as int);
                }
                let entry = MappingGroup {
                    database: mapping.database.clone(),
                    column: mapping.column.clone(),
                    table: clone_option(&mapping.table),
                    mappings,
                };
                let ghost before = out@;
                out.push(entry);
                assert(out@[out@.len() - 1] == entry);
                assert(group_key(out@[out@.len() - 1]) == mapping_key(*mapping));
                assert forall|k: int| 0 <= k < i + 1 implies has_group(
                    out@,
                    mapping_key(#[trigger] self.sharded_mappings@[k]),
                ) by {
                    if k < i {
                        let a = choose|a: int|
                            0 <= a < before.len() && group_key(#[trigger] before[a])
                                == mapping_key(self.sharded_mappings@[k]);
                        assert(out@[a] == before[a]);
                    }
                }
            }
        }
        out
    }

    /// Isolation of tenants.
    pub fn multi_tenant(&self) -> (r: &Option<MultiTenant>)
        ensures
            *r == self.multi_tenant,
    {
        &self.multi_tenant
    }

    /// Settings of the mirror between two databases.
    pub fn get_mirroring_config(&self, source_db: &str, destination_db: &str) -> (r: Option<
        MirrorConfig,
    >)
        ensures
            r == first_mirror(self.general, self.mirroring@, source_db@, destination_db@),
    {
        assert(self.mirroring@.skip(0) == self.mirroring@);
        for i in 0..self.mirroring.len()
            invariant
                first_mirror(self.general, self.mirroring@, source_db@, destination_db@)
                    == first_mirror(
                    self.general,
                    self.mirroring@.skip(i as int),
                    source_db@,
                    destination_db@,
                ),
        {
            let m = &self.mirroring[i];
            assert(self.mirroring@.skip(i as int)[0] == *m);
            assert(self.mirroring@.skip(i as int).skip(1) == self.mirroring@.skip(i + 1));
            if same(m.source_db.as_str(), source_db) && same(
                m.destination_db.as_str(),
                destination_db,
            ) {
                return Some(self.mirror_config(m));
            }
        }
        None
    }

    fn mirror_config(&self, m: &Mirroring) -> (r: MirrorConfig)
        ensures
            r == mirror_settings(self.general, *m),
    {
        MirrorConfig {
            queue_length: match m.queue_length {
                Some(n) => n,
                None => self.general.mirror_queue,
            },
            exposure: match m.exposure {
                Some(e) => e,
                None => self.general.mirror_exposure,
            },
            level: m.level,
        }
    }

    fn collect_mirrors(&self, source_db: &str) -> (r: Vec<(String, MirrorConfig)>)
        ensures
            mirror_views(r@) == mirrors_of(self.general, self.mirroring@, source_db@),
    {
        let mut out: Vec<(String, MirrorConfig)> = Vec::new();
        for i in 0..self.mirroring.len()
            invariant
                mirror_views(out@) == mirrors_of(
                    self.general,
                    self.mirroring@.take(i as int),
                    source_db@,
                ),
        {
            let m = &self.mirroring[i];
            proof {
                assert(self.mirroring@.take(i + 1).drop_last() == self.mirroring@.take(i as int));
                assert(self.mirroring@.take(i + 1).last() == *m);
            }
            if same(m.source_db.as_str(), source_db) {
                let ghost known = out@;
                out.push((m.destination_db.clone(), self.mirror_config(m)));
                assert(mirror_views(out@) == mirror_views(known).push(
                    (m.destination_db@, mirror_settings(self.general, *m)),
                ));
            }
        }
        assert(self.mirroring@.take(self.mirroring@.len() as int) == self.mirroring@);
        out
    }

    /// All mirrors by the database that they copy.
    pub fn mirroring_by_source(&self) -> (r: StringHashMap<Vec<(String, MirrorConfig)>>)
        ensures
            forall|n: Seq<char>| #[trigger]
                r@.contains_key(n) <==> exists|i: int|
                    0 <= i < self.mirroring@.len() && (#[trigger] self.mirroring@[i]).source_db@
                        == n,
            forall|n: Seq<char>| #[trigger]
                r@.contains_key(n) ==> mirror_views(r@[n]@) == mirrors_of(
                    self.general,
                    self.mirroring@,
                    n,
                ),
    {
        let mut out: StringHashMap<Vec<(String, MirrorConfig)>> = StringHashMap::new();
        for i in 0..self.mirroring.len()
            invariant
                forall|n: Seq<char>| #[trigger]
                    out@.contains_key(n) <==> exists|j: int|
                        0 <= j < i && (#[trigger] self.mirroring@[j]).source_db@ == n,
                forall|n: Seq<char>| #[trigger]
                    out@.contains_key(n) ==> mirror_views(out@[n]@) == mirrors_of(
                        self.general,
                        self.mirroring@,
                        n,
                    ),
        {
            let name = self.mirroring[i].source_db.clone();
            if !out.contains_key(name.as_str()) {
                let mirrors = self.collect_mirrors(name.as_str());
                out.insert(name, mirrors);
            }
        }
        out
    }

    /// Swap the names of two databases wherever an entry refers to one of them, so that each name
    /// stands for what the other one stood for.
    pub fn cutover(&mut self, source: &str, destination: &str)
        ensures
            cut_over(*old(self), *final(self), source@, destination@),
    {
        let ghost before = *self;
        let mut i: usize = 0;
        while i < self.databases.len()
            invariant
                i <= self.databases@.len(),
                before.databases@.len() == self.databases@.len(),
                *self == (Config { databases: self.databases, ..before }),
                forall|k: int| 0 <= k < i ==> {
                    let (a, b) = (#[trigger] self.databases@[k], before.databases@[k]);
                    a.name@ == swapped(b.name@, source@, destination@) && a == (Database {
                        name: a.name,
                        ..b
                    })
                },
                forall|k: int|
                    i <= k < self.databases@.len() ==> #[trigger] self.databases@[k]
                        == before.databases@[k],
            decreases self.databases@.len() - i,
        {
            swap_name(&mut self.databases[i].name, source, destination);
            i = i + 1;
        }
        let ghost first = *self;
        i = 0;
        while i < self.sharded_mappings.len()
            invariant
                i <= self.sharded_mappings@.len(),
                first.sharded_mappings@.len() == self.sharded_mappings@.len(),
                *self == (Config { sharded_mappings: self.sharded_mappings, ..first }),
                forall|k: int| 0 <= k < i ==> {
                    let (a, b) = (
                        #[trigger] self.sharded_mappings@[k],
                        first.sharded_mappings@[k],
                    );
                    a.database@ == swapped(b.database@, source@, destination@) && a == (
                    ShardedMapping { database: a.database, ..b })
                },
                forall|k: int|
                    i <= k < self.sharded_mappings@.len() ==> #[trigger] self.sharded_mappings@[k]
                        == first.sharded_mappings@[k],
            decreases self.sharded_mappings@.len() - i,
        {
            swap_name(&mut self.sharded_mappings[i].database, source, destination);
            i = i + 1;
        }
        let ghost second = *self;
        i = 0;
        while i < self.sharded_tables.len()
            invariant
                i <= self.sharded_tables@.len(),
                second.sharded_tables@.len() == self.sharded_tables@.len(),
                *self == (Config { sharded_tables: self.sharded_tables, ..second }),
                forall|k: int| 0 <= k < i ==> {
                    let (a, b) = (#[trigger] self.sharded_tables@[k], second.sharded_tables@[k]);
                    a.database@ == swapped(b.database@, source@, destination@) && a == (
                    ShardedTable { database: a.database, ..b })
                },
                forall|k: int|
                    i <= k < self.sharded_tables@.len() ==> #[trigger] self.sharded_tables@[k]
                        == second.sharded_tables@[k],
            decreases self.sharded_tables@.len() - i,
        {
            swap_name(&mut self.sharded_tables[i].database, source, destination);
            i = i + 1;
        }
        let ghost third = *self;
        i = 0;
        while i < self.omnisharded_tables.len()
            invariant
                i <= self.omnisharded_tables@.len(),
                third.omnisharded_tables@.len() == self.omnisharded_tables@.len(),
                *self == (Config { omnisharded_tables: self.omnisharded_tables, ..third }),
                forall|k: int| 0 <= k < i ==> {
                    let (a, b) = (
                        #[trigger] self.omnisharded_tables@[k],
                        third.omnisharded_tables@[k],
                    );
                    a.database@ == swapped(b.database@, source@, destination@) && a == (
                    OmnishardedTables { database: a.database, ..b })
                },
                forall|k: int|
                    i <= k < self.omnisharded_tables@.len()
                        ==> #[trigger] self.omnisharded_tables@[k] == third.omnisharded_tables@[k],
            decreases self.omnisharded_tables@.len() - i,
        {
            swap_name(&mut self.omnisharded_tables[i].database, source, destination);
            i = i + 1;
        }
        let ghost fourth = *self;
        i = 0;
        while i < self.mirroring.len()
            invariant
                i <= self.mirroring@.len(),
                fourth.mirroring@.len() == self.mirroring@.len(),
                *self == (Config { mirroring: self.mirroring, ..fourth }),
                forall|k: int| 0 <= k < i ==> {
                    let (a, b) = (#[trigger] self.mirroring@[k], fourth.mirroring@[k]);
                    a.source_db@ == swapped(b.source_db@, source@, destination@)
                        && a.destination_db@ == swapped(b.destination_db@, source@, destination@)
                        && a == (Mirroring {
                        source_db: a.source_db,
                        destination_db: a.destination_db,
                        ..b
                    })
                },
                forall|k: int|
                    i <= k < self.mirroring@.len() ==> #[trigger] self.mirroring@[k]
                        == fourth.mirroring@[k],
            decreases self.mirroring@.len() - i,
        {
            swap_name(&mut self.mirroring[i].source_db, source, destination);
            swap_name(&mut self.mirroring[i].destination_db, source, destination);
            i = i + 1;
        }
    }
}

/// Two configurations that read the same: every entry agrees in every field and in every name.
pub open spec fn reads_same(a: Config, b: Config) -> bool {
    &&& b == (Config {
        databases: b.databases,
        sharded_mappings: b.sharded_mappings,
        sharded_tables: b.sharded_tables,
        omnisharded_tables: b.omnisharded_tables,
        mirroring: b.mirroring,
        ..a
    })
    &&& a.databases@.len() == b.databases@.len()
    &&& forall|i: int| 0 <= i < a.databases@.len() ==> {
        let (x, y) = (a.databases@[i], #[trigger] b.databases@[i]);
        x.name@ == y.name@ && y == (Database { name: y.name, ..x })
    }
    &&& a.sharded_mappings@.len() == b.sharded_mappings@.len()
    &&& forall|i: int| 0 <= i < a.sharded_mappings@.len() ==> {
        let (x, y) = (a.sharded_mappings@[i], #[trigger] b.sharded_mappings@[i]);
        x.database@ == y.database@ && y == (ShardedMapping { database: y.database, ..x })
    }
    &&& a.sharded_tables@.len() == b.sharded_tables@.len()
    &&& forall|i: int| 0 <= i < a.sharded_tables@.len() ==> {
        let (x, y) = (a.sharded_tables@[i], #[trigger] b.sharded_tables@[i]);
        x.database@ == y.database@ && y == (ShardedTable { database: y.database, ..x })
    }
    &&& a.omnisharded_tables@.len() == b.omnisharded_tables@.len()
    &&& forall|i: int| 0 <= i < a.omnisharded_tables@.len() ==> {
        let (x, y) = (a.omnisharded_tables@[i], #[trigger] b.omnisharded_tables@[i]);
        x.database@ == y.database@ && y == (OmnishardedTables { database: y.database, ..x })
    }
    &&& a.mirroring@.len() == b.mirroring@.len()
    &&& forall|i: int| 0 <= i < a.mirroring@.len() ==> {
        let (x, y) = (a.mirroring@[i], #[trigger] b.mirroring@[i]);
        x.source_db@ == y.source_db@ && x.destination_db@ == y.destination_db@ && y == (Mirroring {
            source_db: y.source_db,
            destination_db: y.destination_db,
            ..x
        })
    }
}

/// A second cutover between the same databases takes the first one back.
pub proof fn cutover_undoes_itself(
    a: Config,
    b: Config,
    c: Config,
    source: Seq<char>,
    destination: Seq<char>,
)
    requires
        cut_over(a, b, source, destination),
        cut_over(b, c, source, destination),
    ensures
        reads_same(a, c),
{
    assert forall|i: int| 0 <= i < a.databases@.len() implies {
        let (x, y) = (a.databases@[i], #[trigger] c.databases@[i]);
        x.name@ == y.name@ && y == (Database { name: y.name, ..x })
    } by {
        let _ = b.databases@[i];
    }
    assert forall|i: int| 0 <= i < a.sharded_mappings@.len() implies {
        let (x, y) = (a.sharded_mappings@[i], #[trigger] c.sharded_mappings@[i]);
        x.database@ == y.database@ && y == (ShardedMapping { database: y.database, ..x })
    } by {
        let _ = b.sharded_mappings@[i];
    }
    assert forall|i: int| 0 <= i < a.sharded_tables@.len() implies {
        let (x, y) = (a.sharded_tables@[i], #[trigger] c.sharded_tables@[i]);
        x.database@ == y.database@ && y == (ShardedTable { database: y.database, ..x })
    } by {
        let _ = b.sharded_tables@[i];
    }
    assert forall|i: int| 0 <= i < a.omnisharded_tables@.len() implies {
        let (x, y) = (a.omnisharded_tables@[i], #[trigger] c.omnisharded_tables@[i]);
        x.database@ == y.database@ && y == (OmnishardedTables { database: y.database, ..x })
    } by {
        let _ = b.omnisharded_tables@[i];
    }
    assert forall|i: int| 0 <= i < a.mirroring@.len() implies {
        let (x, y) = (a.mirroring@[i], #[trigger] c.mirroring@[i]);
        x.source_db@ == y.source_db@ && x.destination_db@ == y.destination_db@ && y == (Mirroring {
            source_db: y.source_db,
            destination_db: y.destination_db,
            ..x
        })
    } by {
        let _ = b.mirroring@[i];
    }
}

/// The first of the mirrors that leads to a database.
pub open spec fn first_to(mirrors: Seq<(Seq<char>, MirrorConfig)>, destination: Seq<char>) -> Option<
    MirrorConfig,
>
    decreases mirrors.len(),
{
    if mirrors.len() == 0 {
        None
    } else if mirrors[0].0 == destination {
        Some(mirrors[0].1)
    } else {
        first_to(mirrors.skip(1), destination)
    }
}

proof fn lemma_mirrors_front(general: General, mirroring: Seq<Mirroring>, source: Seq<char>)
    requires
        mirroring.len() > 0,
    ensures
        mirrors_of(general, mirroring, source) == if mirroring[0].source_db@ == source {
            seq![(mirroring[0].destination_db@, mirror_settings(general, mirroring[0]))]
                + mirrors_of(general, mirroring.skip(1), source)
        } else {
            mirrors_of(general, mirroring.skip(1), source)
        },
    decreases mirroring.len(),
{
    if mirroring.len() == 1 {
        assert(mirroring.drop_last() == Seq::<Mirroring>::empty());
        assert(mirroring.skip(1) == Seq::<Mirroring>::empty());
        assert(mirroring.last() == mirroring[0]);
        assert(mirrors_of(general, mirroring.drop_last(), source) == Seq::<
            (Seq<char>, MirrorConfig),
        >::empty());
    } else {
        lemma_mirrors_front(general, mirroring.drop_last(), source);
        assert(mirroring.drop_last()[0] == mirroring[0]);
        assert(mirroring.drop_last().skip(1) == mirroring.skip(1).drop_last());
        assert(mirroring.skip(1).last() == mirroring.last());
    }
}

/// Looking up one mirror and listing all mirrors of a database agree: the mirror between two
/// databases is the first one listed for the source that leads to the destination.
pub proof fn mirror_lookups_agree(
    general: General,
    mirroring: Seq<Mirroring>,
    source: Seq<char>,
    destination: Seq<char>,
)
    ensures
        first_mirror(general, mirroring, source, destination) == first_to(
            mirrors_of(general, mirroring, source),
            destination,
        ),
    decreases mirroring.len(),
{
    if mirroring.len() > 0 {
        lemma_mirrors_front(general, mirroring, source);
        mirror_lookups_agree(general, mirroring.skip(1), source, destination);
        let rest = mirrors_of(general, mirroring.skip(1), source);
        let head = (mirroring[0].destination_db@, mirror_settings(general, mirroring[0]));
        assert((seq![head] + rest).skip(1) == rest);
    }
}

proof fn lemma_shard_counted(databases: Seq<Database>, i: int)
    requires
        0 <= i < databases.len(),
    ensures
        databases[i].shard < shards_of(databases, databases[i].name@),
    decreases databases.len(),
{
    if i < databases.len() - 1 {
        lemma_shard_counted(databases.drop_last(), i);
        assert(databases.drop_last()[i] == databases[i]);
    }
}

/// Every entry is found again under its name and shard, with its own number.
pub proof fn every_database_is_listed(databases: Seq<Database>, i: int)
    requires
        0 <= i < databases.len() <= usize::MAX,
    ensures
        has_database(databases, databases[i].name@),
        databases[i].shard < shards_of(databases, databases[i].name@),
        servers_of(databases, databases[i].name@, databases[i].shard as int).contains(
            EnumeratedDatabase { number: i as usize, database: databases[i] },
        ),
{
    lemma_shard_counted(databases, i);
    let name = databases[i].name@;
    let shard = databases[i].shard as int;
    let keep = of_shard(name, shard);
    assert(enumerated(databases)[i] == (EnumeratedDatabase {
        number: i as usize,
        database: databases[i],
    }));
    enumerated(databases).lemma_filter_contains(keep, i);
}

/// Whatever is listed as a server of a shard is configured as one, under that number, and a database
/// has no more shards than its entries ask for.
pub proof fn only_databases_are_listed(databases: Seq<Database>, name: Seq<char>, shard: int, k: int)
    requires
        databases.len() <= usize::MAX,
        0 <= k < servers_of(databases, name, shard).len(),
    ensures
        ({
            let s = servers_of(databases, name, shard)[k];
            &&& s.number < databases.len()
            &&& s.database == databases[s.number as int]
            &&& s.database.name@ == name && s.database.shard == shard
        }),
{
    let keep = of_shard(name, shard);
    let all = enumerated(databases);
    let s = servers_of(databases, name, shard)[k];
    all.lemma_filter_pred(keep, k);
    lemma_filter_member(all, keep, k);
    let i = choose|i: int| 0 <= i < all.len() && all[i] == s;
    assert(all[i] == (EnumeratedDatabase { number: i as usize, database: databases[i] }));
}

proof fn lemma_filter_member<T>(s: Seq<T>, p: spec_fn(T) -> bool, k: int)
    requires
        0 <= k < s.filter(p).len(),
    ensures
        s.contains(s.filter(p)[k]),
    decreases s.len(),
{
    reveal(Seq::filter);
    if s.len() > 0 {
        let short = s.drop_last();
        if k < short.filter(p).len() {
            lemma_filter_member(short, p, k);
            let i = choose|i: int| 0 <= i < short.len() && short[i] == short.filter(p)[k];
            assert(s[i] == short[i]);
            assert(s.filter(p)[k] == short.filter(p)[k]);
        } else {
            assert(s.filter(p)[k] == s.last());
            assert(s[s.len() - 1] == s.last());
        }
    }
}

/// The entries of a database are all of those that belong to it, and no others.
pub proof fn entries_belong_to_their_database<T: Keyed>(items: Seq<T>, name: Seq<char>, i: int, k: int)
    requires
        0 <= i < items.len(),
    ensures
        items[i].key() == name ==> entries_of(items, name).contains(items[i]),
        0 <= k < entries_of(items, name).len() ==> entries_of(items, name)[k].key() == name
            && items.contains(entries_of(items, name)[k]),
{
    let keep = of_database::<T>(name);
    if items[i].key() == name {
        items.lemma_filter_contains(keep, i);
    }
    if 0 <= k < entries_of(items, name).len() {
        items.lemma_filter_pred(keep, k);
        lemma_filter_member(items, keep, k);
    }
}

/// Sharded tables and schemas belong to the database that they name.
pub proof fn sharded_entries_name_their_database(
    tables: Seq<ShardedTable>,
    schemas: Seq<ShardedSchema>,
    name: Seq<char>,
    i: int,
)
    ensures
        0 <= i < tables.len() && tables[i].database@ == name ==> entries_of(tables, name).contains(
            tables[i],
        ),
        0 <= i < schemas.len() && schemas[i].database@ == name ==> entries_of(
            schemas,
            name,
        ).contains(schemas[i]),
        0 <= i < entries_of(tables, name).len() ==> entries_of(tables, name)[i].database@ == name,
        0 <= i < entries_of(schemas, name).len() ==> entries_of(schemas, name)[i].database@
            == name,
{
    if 0 <= i < tables.len() {
        entries_belong_to_their_database(tables, name, i, i);
    }
    if 0 <= i < schemas.len() {
        entries_belong_to_their_database(schemas, name, i, i);
    }
    if 0 <= i < entries_of(tables, name).len() {
        tables.lemma_filter_pred(of_database::<ShardedTable>(name), i);
    }
    if 0 <= i < entries_of(schemas, name).len() {
        schemas.lemma_filter_pred(of_database::<ShardedSchema>(name), i);
    }
}

} // verus!
