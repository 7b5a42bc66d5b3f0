//! What is wrong, or likely to be wrong, with a configuration.

use crate::config::database::{Database, ReadWriteSplit, Role};
use crate::config::general::{
    Mirroring, MirroringLevel, PassthroughAuth, QueryParserEngine, QueryParserLevel, RewriteMode,
};
#[allow(unused_imports)]
use crate::config::general::General;
use crate::config::settings::Config;
#[allow(unused_imports)]
use crate::config::settings::has_database;
#[allow(unused_imports)]
use crate::text::decimal;
use crate::text::{decimal_text, owned, same};
use vstd::prelude::*;
use vstd::string::*;

verus! {

/// Stack that the raw query parser needs: 32 MiB.
pub const RAW_PARSER_STACK: usize = 33_554_432;

/// A warning about a configuration. An `entry` is the number of a database entry, a `mirror` that
/// of a mirroring entry.
#[derive(Clone, Copy, Debug, PartialEq, Eq, Structural)]
pub enum ConfigWarning {
    /// An earlier entry describes the same server.
    DuplicateDatabase { entry: usize },
    /// The first entry of the same database has another pooler mode, which counts.
    PoolerModeDiffers { entry: usize },
    /// Some entries of the database leave the role to be detected and some do not.
    MixedRoles { entry: usize },
    /// The database has shards or replicas and queries are not parsed.
    ParserNeeded { entry: usize },
    /// A ban expires before idle connections are checked.
    HealthcheckTooRare { interval: u64, ban_timeout: u64 },
    /// Passwords may be passed through and clients need not use TLS.
    PassthroughWithoutTls,
    /// Passwords are passed through in the clear.
    PassthroughPlain,
    /// Rewritten sharding keys are not committed as a whole.
    NonAtomicKeyRewrite,
    /// Split inserts are not committed as a whole.
    NonAtomicSplitInserts,
    /// A mirror has to classify statements and queries are not parsed.
    MirrorNeedsParser { mirror: usize },
    /// Reads go to replicas only and the database has none.
    NoReplicas { entry: usize },
    /// Reads cannot be told from writes.
    PreferPrimaryWithoutParser,
    /// `query_parser_enabled` is set.
    DeprecatedParserSetting,
    /// The stack of worker threads was raised.
    StackRaised,
}

/// The two entries describe the same server.
pub open spec fn same_server(a: Database, b: Database) -> bool {
    &&& a.name@ == b.name@
    &&& a.role == b.role
    &&& a.shard == b.shard
    &&& a.port == b.port
    &&& a.host@ == b.host@
}

/// An earlier entry describes the same server.
pub open spec fn duplicate_at(dbs: Seq<Database>, i: int) -> bool {
    exists|j: int| 0 <= j < i && same_server(#[trigger] dbs[j], dbs[i])
}

/// No earlier entry has the same name.
pub open spec fn is_first(dbs: Seq<Database>, i: int) -> bool {
    forall|j: int| 0 <= j < i ==> (#[trigger] dbs[j]).name@ != dbs[i].name@
}

/// `f` is the first entry of the database of entry `i`, and an earlier one.
pub open spec fn leads(dbs: Seq<Database>, f: int, i: int) -> bool {
    0 <= f < i && is_first(dbs, f) && dbs[f].name@ == dbs[i].name@
}

/// The pooler mode is not that of the first entry of the database.
pub open spec fn pooler_differs_at(dbs: Seq<Database>, i: int) -> bool {
    exists|f: int| #[trigger] leads(dbs, f, i) && dbs[f].pooler_mode != dbs[i].pooler_mode
}

/// Of this entry and the first one of the database, one has a fixed role and one has not.
pub open spec fn mixed_at(dbs: Seq<Database>, i: int) -> bool {
    exists|f: int| #[trigger]
        leads(dbs, f, i) && (dbs[f].role == Role::Auto || dbs[i].role == Role::Auto) && dbs[f].role
            != dbs[i].role
}

/// This is the first entry of the database that mixes roles.
pub open spec fn first_mixed_at(dbs: Seq<Database>, i: int) -> bool {
    &&& mixed_at(dbs, i)
    &&& forall|j: int|
        0 <= j < i && (#[trigger] dbs[j]).name@ == dbs[i].name@ ==> !mixed_at(dbs, j)
}

/// The entry takes part in sharding or in load balancing.
pub open spec fn spreads(d: Database) -> bool {
    d.shard > 0 || d.role == Role::Replica
}

/// The database, up to this entry, has shards or replicas.
pub open spec fn spread_by(dbs: Seq<Database>, i: int) -> bool {
    exists|k: int| 0 <= k <= i && (#[trigger] dbs[k]).name@ == dbs[i].name@ && spreads(dbs[k])
}

/// This is the first entry after the first one of the database at which the database is known to
/// have shards or replicas.
pub open spec fn first_spread_at(dbs: Seq<Database>, i: int) -> bool {
    &&& !is_first(dbs, i)
    &&& spread_by(dbs, i)
    &&& forall|j: int|
        0 <= j < i && (#[trigger] dbs[j]).name@ == dbs[i].name@ && !is_first(dbs, j)
            ==> !spread_by(dbs, j)
}

/// `w` where `condition` holds, else nothing.
pub open spec fn when(condition: bool, w: ConfigWarning) -> Seq<ConfigWarning> {
    if condition {
        seq![w]
    } else {
        Seq::empty()
    }
}

/// Warnings about duplicates among the first `n` entries.
pub open spec fn duplicate_warnings(dbs: Seq<Database>, n: nat) -> Seq<ConfigWarning>
    decreases n,
{
    if n == 0 {
        Seq::empty()
    } else {
        let i = n - 1;
        duplicate_warnings(dbs, i as nat) + when(
            duplicate_at(dbs, i),
            ConfigWarning::DuplicateDatabase { entry: i as usize },
        )
    }
}

/// Warnings about the first `n` entries that do not fit the other entries of their database.
pub open spec fn mismatch_warnings(dbs: Seq<Database>, parser_off: bool, n: nat) -> Seq<
    ConfigWarning,
>
    decreases n,
{
    if n == 0 {
        Seq::empty()
    } else {
        let i = n - 1;
        mismatch_warnings(dbs, parser_off, i as nat) + when(
            pooler_differs_at(dbs, i),
            ConfigWarning::PoolerModeDiffers { entry: i as usize },
        ) + when(first_mixed_at(dbs, i), ConfigWarning::MixedRoles { entry: i as usize }) + when(
            parser_off && first_spread_at(dbs, i),
            ConfigWarning::ParserNeeded { entry: i as usize },
        )
    }
}

/// The database has a replica.
pub open spec fn has_replica(dbs: Seq<Database>, name: Seq<char>) -> bool {
    exists|k: int|
        0 <= k < dbs.len() && (#[trigger] dbs[k]).name@ == name && dbs[k].role == Role::Replica
}

/// The database has a shard beyond the first.
pub open spec fn has_shards(dbs: Seq<Database>, name: Seq<char>) -> bool {
    exists|k: int| 0 <= k < dbs.len() && (#[trigger] dbs[k]).name@ == name && dbs[k].shard > 0
}

/// Queries on the database are parsed.
pub open spec fn parsed(level: QueryParserLevel, dbs: Seq<Database>, name: Seq<char>) -> bool {
    match level {
        QueryParserLevel::On => true,
        QueryParserLevel::Auto => has_replica(dbs, name) || has_shards(dbs, name),
        _ => false,
    }
}

/// The mirror has to classify statements of a configured database and cannot.
pub open spec fn mirror_blind(
    level: QueryParserLevel,
    dbs: Seq<Database>,
    m: Mirroring,
) -> bool {
    m.level != MirroringLevel::All && has_database(dbs, m.source_db@) && !parsed(
        level,
        dbs,
        m.source_db@,
    )
}

/// The first mirror of its source that is blind.
pub open spec fn first_blind_at(
    level: QueryParserLevel,
    dbs: Seq<Database>,
    mirrors: Seq<Mirroring>,
    i: int,
) -> bool {
    &&& mirror_blind(level, dbs, mirrors[i])
    &&& forall|j: int|
        0 <= j < i && (#[trigger] mirrors[j]).source_db@ == mirrors[i].source_db@ ==> !mirror_blind(
            level,
            dbs,
            mirrors[j],
        )
}

/// Warnings about the first `n` mirrors.
pub open spec fn mirror_warnings(
    level: QueryParserLevel,
    dbs: Seq<Database>,
    mirrors: Seq<Mirroring>,
    n: nat,
) -> Seq<ConfigWarning>
    decreases n,
{
    if n == 0 {
        Seq::empty()
    } else {
        let i = n - 1;
        mirror_warnings(level, dbs, mirrors, i as nat) + when(
            first_blind_at(level, dbs, mirrors, i),
            ConfigWarning::MirrorNeedsParser { mirror: i as usize },
        )
    }
}

/// Warnings about databases without replicas, one at the first entry of each.
pub open spec fn replica_warnings(dbs: Seq<Database>, n: nat) -> Seq<ConfigWarning>
    decreases n,
{
    if n == 0 {
        Seq::empty()
    } else {
        let i = n - 1;
        replica_warnings(dbs, i as nat) + when(
            is_first(dbs, i) && !has_replica(dbs, dbs[i].name@),
            ConfigWarning::NoReplicas { entry: i as usize },
        )
    }
}

/// Warnings about how clients log in.
pub open spec fn login_warnings(g: General) -> Seq<ConfigWarning> {
    match g.passthrough_auth {
        PassthroughAuth::Enabled => when(
            !g.tls_client_required,
            ConfigWarning::PassthroughWithoutTls,
        ),
        PassthroughAuth::EnabledPlain => seq![ConfigWarning::PassthroughPlain],
        PassthroughAuth::Disabled => Seq::empty(),
    }
}

/// Warnings about the databases and their entries.
pub open spec fn entry_warnings(c: Config) -> Seq<ConfigWarning> {
    duplicate_warnings(c.databases@, c.databases@.len()) + mismatch_warnings(
        c.databases@,
        c.general.query_parser == QueryParserLevel::Off,
        c.databases@.len(),
    )
}

/// Warnings about rewrites that are not atomic.
pub open spec fn rewrite_warnings(c: Config) -> Seq<ConfigWarning> {
    let unsafe_rewrites = !c.general.two_phase_commit && c.rewrite.enabled;
    when(
        unsafe_rewrites && c.rewrite.shard_key == RewriteMode::Rewrite,
        ConfigWarning::NonAtomicKeyRewrite,
    ) + when(
        unsafe_rewrites && c.rewrite.split_inserts == RewriteMode::Rewrite,
        ConfigWarning::NonAtomicSplitInserts,
    )
}

/// Warnings about reads that have nowhere to go.
pub open spec fn split_warnings(c: Config) -> Seq<ConfigWarning> {
    (if c.general.read_write_split == ReadWriteSplit::ExcludePrimary {
        replica_warnings(c.databases@, c.databases@.len())
    } else {
        Seq::empty()
    }) + when(
        c.general.read_write_split == ReadWriteSplit::PreferPrimary && c.general.query_parser
            == QueryParserLevel::Off,
        ConfigWarning::PreferPrimaryWithoutParser,
    )
}

/// The raw parser is used and worker threads have too small a stack for it.
pub open spec fn stack_too_small(c: Config) -> bool {
    c.general.query_parser_engine == QueryParserEngine::PgQueryRaw && c.memory.stack_size
        < RAW_PARSER_STACK
}

/// All warnings about a configuration, in the order in which they are given.
pub open spec fn all_warnings(c: Config) -> Seq<ConfigWarning> {
    entry_warnings(c) + when(
        c.general.ban_timeout > 0 && c.general.idle_healthcheck_interval >= c.general.ban_timeout,
        ConfigWarning::HealthcheckTooRare {
            interval: c.general.idle_healthcheck_interval,
            ban_timeout: c.general.ban_timeout,
        },
    ) + login_warnings(c.general) + rewrite_warnings(c) + mirror_warnings(
        c.general.query_parser,
        c.databases@,
        c.mirroring@,
        c.mirroring@.len(),
    ) + split_warnings(c) + when(
        c.general.query_parser_enabled,
        ConfigWarning::DeprecatedParserSetting,
    ) + when(stack_too_small(c), ConfigWarning::StackRaised)
}

/// The configuration once deprecated and insufficient settings have been replaced.
pub open spec fn corrected(c: Config) -> Config {
    Config {
        general: General {
            query_parser: if c.general.query_parser_enabled {
                QueryParserLevel::On
            } else {
                c.general.query_parser
            },
            ..c.general
        },
        memory: crate::config::general::Memory {
            stack_size: if stack_too_small(c) {
                RAW_PARSER_STACK
            } else {
                c.memory.stack_size
            },
            ..c.memory
        },
        ..c
    }
}

fn find_duplicate(dbs: &Vec<Database>, i: usize) -> (r: bool)
    requires
        i < dbs@.len(),
    ensures
        r == duplicate_at(dbs@, i as int),
{
    for j in 0..i
        invariant
            i < dbs@.len(),
            forall|k: int| 0 <= k < j ==> !same_server(#[trigger] dbs@[k], dbs@[i as int]),
    {
        if same(dbs[j].name.as_str(), dbs[i].name.as_str()) && dbs[j].role == dbs[i].role
            && dbs[j].shard == dbs[i].shard && dbs[j].port == dbs[i].port && same(
            dbs[j].host.as_str(),
            dbs[i].host.as_str(),
        ) {
            assert(same_server(dbs@[j as int], dbs@[i as int]));
            return true;
        }
    }
    false
}

/// The first entry of the database of entry `i`.
fn find_first(dbs: &Vec<Database>, i: usize) -> (r: usize)
    requires
        i < dbs@.len(),
    ensures
        r <= i,
        is_first(dbs@, r as int),
        dbs@[r as int].name@ == dbs@[i as int].name@,
        r == i <==> is_first(dbs@, i as int),
        r < i ==> leads(dbs@, r as int, i as int),
        forall|f: int| #[trigger] leads(dbs@, f, i as int) ==> f == r,
{
    let mut j: usize = 0;
    while j < i
        invariant
            j <= i < dbs@.len(),
            forall|k: int| 0 <= k < j ==> (#[trigger] dbs@[k]).name@ != dbs@[i as int].name@,
        decreases i - j,
    {
        if same(dbs[j].name.as_str(), dbs[i].name.as_str()) {
            assert(is_first(dbs@, j as int));
            assert forall|f: int| #[trigger] leads(dbs@, f, i as int) implies f == j by {
                if f > j {
                    assert(dbs@[j as int].name@ != dbs@[f].name@);
                }
            }
            return j;
        }
        j = j + 1;
    }
    i
}

fn find_mixed(dbs: &Vec<Database>, i: usize) -> (r: bool)
    requires
        i < dbs@.len(),
    ensures
        r == mixed_at(dbs@, i as int),
{
    let f = find_first(dbs, i);
    if f < i {
        let auto = dbs[f].role == Role::Auto || dbs[i].role == Role::Auto;
        auto && dbs[f].role != dbs[i].role
    } else {
        assert forall|g: int| #[trigger] leads(dbs@, g, i as int) implies false by {
            assert(dbs@[g].name@ != dbs@[i as int].name@);
        }
        false
    }
}

fn find_first_mixed(dbs: &Vec<Database>, i: usize) -> (r: bool)
    requires
        i < dbs@.len(),
    ensures
        r == first_mixed_at(dbs@, i as int),
{
    if !find_mixed(dbs, i) {
        return false;
    }
    for j in 0..i
        invariant
            i < dbs@.len(),
            forall|k: int|
                0 <= k < j && (#[trigger] dbs@[k]).name@ == dbs@[i as int].name@ ==> !mixed_at(
                    dbs@,
                    k,
                ),
    {
        if same(dbs[j].name.as_str(), dbs[i].name.as_str()) && find_mixed(dbs, j) {
            return false;
        }
    }
    true
}

fn find_spread(dbs: &Vec<Database>, i: usize) -> (r: bool)
    requires
        i < dbs@.len(),
    ensures
        r == spread_by(dbs@, i as int),
{
    assert(i < dbs.len());
    for k in 0..i + 1
        invariant
            i < dbs@.len(),
            forall|j: int|
                0 <= j < k && (#[trigger] dbs@[j]).name@ == dbs@[i as int].name@ ==> !spreads(
                    dbs@[j],
                ),
    {
        if same(dbs[k].name.as_str(), dbs[i].name.as_str()) && (dbs[k].shard > 0 || dbs[k].role
            == Role::Replica) {
            return true;
        }
    }
    false
}

fn find_first_spread(dbs: &Vec<Database>, i: usize) -> (r: bool)
    requires
        i < dbs@.len(),
    ensures
        r == first_spread_at(dbs@, i as int),
{
    if find_first(dbs, i) == i || !find_spread(dbs, i) {
        return false;
    }
    for j in 0..i
        invariant
            i < dbs@.len(),
            forall|k: int|
                0 <= k < j && (#[trigger] dbs@[k]).name@ == dbs@[i as int].name@ && !is_first(
                    dbs@,
                    k,
                ) ==> !spread_by(dbs@, k),
    {
        if same(dbs[j].name.as_str(), dbs[i].name.as_str()) && find_first(dbs, j) != j
            && find_spread(dbs, j) {
            return false;
        }
    }
    true
}

fn find_replica(dbs: &Vec<Database>, name: &str) -> (r: bool)
    ensures
        r == has_replica(dbs@, name@),
{
    for k in 0..dbs.len()
        invariant
            forall|j: int|
                0 <= j < k && (#[trigger] dbs@[j]).name@ == name@ ==> dbs@[j].role
                    != Role::Replica,
    {
        if same(dbs[k].name.as_str(), name) && dbs[k].role == Role::Replica {
            return true;
        }
    }
    false
}

fn find_shards(dbs: &Vec<Database>, name: &str) -> (r: bool)
    ensures
        r == has_shards(dbs@, name@),
{
    for k in 0..dbs.len()
        invariant
            forall|j: int|
                0 <= j < k && (#[trigger] dbs@[j]).name@ == name@ ==> dbs@[j].shard == 0,
    {
        if same(dbs[k].name.as_str(), name) && dbs[k].shard > 0 {
            return true;
        }
    }
    false
}

fn find_database(dbs: &Vec<Database>, name: &str) -> (r: bool)
    ensures
        r == has_database(dbs@, name@),
{
    for k in 0..dbs.len()
        invariant
            forall|j: int| 0 <= j < k ==> (#[trigger] dbs@[j]).name@ != name@,
    {
        if same(dbs[k].name.as_str(), name) {
            return true;
        }
    }
    false
}

fn find_blind(level: QueryParserLevel, dbs: &Vec<Database>, m: &Mirroring) -> (r: bool)
    ensures
        r == mirror_blind(level, dbs@, *m),
{
    let name = m.source_db.as_str();
    if m.level == MirroringLevel::All || !find_database(dbs, name) {
        return false;
    }
    let parser_enabled = match level {
        QueryParserLevel::On => true,
        QueryParserLevel::Off
        | QueryParserLevel::SessionControl
        | QueryParserLevel::SessionControlAndLocks => false,
        QueryParserLevel::Auto => find_replica(dbs, name) || find_shards(dbs, name),
    };
    !parser_enabled
}

fn find_first_blind(
    level: QueryParserLevel,
    dbs: &Vec<Database>,
    mirrors: &Vec<Mirroring>,
    i: usize,
) -> (r: bool)
    requires
        i < mirrors@.len(),
    ensures
        r == first_blind_at(level, dbs@, mirrors@, i as int),
{
    if !find_blind(level, dbs, &mirrors[i]) {
        return false;
    }
    for j in 0..i
        invariant
            i < mirrors@.len(),
            forall|k: int|
                0 <= k < j && (#[trigger] mirrors@[k]).source_db@ == mirrors@[i as int].source_db@
                    ==> !mirror_blind(level, dbs@, mirrors@[k]),
    {
        if same(mirrors[j].source_db.as_str(), mirrors[i].source_db.as_str()) && find_blind(
            level,
            dbs,
            &mirrors[j],
        ) {
            return false;
        }
    }
    true
}

/// Add a warning where it is due.
fn warn(out: &mut Vec<ConfigWarning>, condition: bool, w: ConfigWarning)
    ensures
        final(out)@ == old(out)@ + when(condition, w),
{
    if condition {
        out.push(w);
    }
}

fn warn_entries(c: &Config, out: &mut Vec<ConfigWarning>)
    ensures
        final(out)@ == old(out)@ + entry_warnings(*c),
{
    let dbs = &c.databases;
    let ghost start = out@;
    for i in 0..dbs.len()
        invariant
            out@ == start + duplicate_warnings(dbs@, i as nat),
    {
        let found = find_duplicate(dbs, i);
        warn(out, found, ConfigWarning::DuplicateDatabase { entry: i });
    }
    let parser_off = c.general.query_parser == QueryParserLevel::Off;
    let ghost middle = out@;
    for i in 0..dbs.len()
        invariant
            out@ == middle + mismatch_warnings(dbs@, parser_off, i as nat),
    {
        let f = find_first(dbs, i);
        let differs = f < i && dbs[f].pooler_mode != dbs[i].pooler_mode;
        proof {
            if f == i {
                assert forall|g: int| #[trigger] leads(dbs@, g, i as int) implies false by {
                    assert(dbs@[g].name@ != dbs@[i as int].name@);
                }
            }
            assert(differs == pooler_differs_at(dbs@, i as int));
        }
        let mixed = find_first_mixed(dbs, i);
        let spread = find_first_spread(dbs, i);
        warn(out, differs, ConfigWarning::PoolerModeDiffers { entry: i });
        warn(out, mixed, ConfigWarning::MixedRoles { entry: i });
        warn(out, parser_off && spread, ConfigWarning::ParserNeeded { entry: i });
    }
    assert(out@ == start + entry_warnings(*c));
}

fn warn_settings(c: &Config, out: &mut Vec<ConfigWarning>)
    ensures
        final(out)@ == old(out)@ + when(
            c.general.ban_timeout > 0 && c.general.idle_healthcheck_interval
                >= c.general.ban_timeout,
            ConfigWarning::HealthcheckTooRare {
                interval: c.general.idle_healthcheck_interval,
                ban_timeout: c.general.ban_timeout,
            },
        ) + login_warnings(c.general) + rewrite_warnings(*c),
{
    let ghost start = out@;
    let g = &c.general;
    warn(
        out,
        g.ban_timeout > 0 && g.idle_healthcheck_interval >= g.ban_timeout,
        ConfigWarning::HealthcheckTooRare {
            interval: g.idle_healthcheck_interval,
            ban_timeout: g.ban_timeout,
        },
    );
    let ghost first = out@;
    match g.passthrough_auth {
        PassthroughAuth::Enabled => {
            warn(out, !g.tls_client_required, ConfigWarning::PassthroughWithoutTls);
        },
        PassthroughAuth::EnabledPlain => {
            warn(out, true, ConfigWarning::PassthroughPlain);
        },
        PassthroughAuth::Disabled => {},
    }
    assert(out@ == first + login_warnings(c.general));
    let loose = !g.two_phase_commit && c.rewrite.enabled;
    warn(
        out,
        loose && c.rewrite.shard_key == RewriteMode::Rewrite,
        ConfigWarning::NonAtomicKeyRewrite,
    );
    warn(
        out,
        loose && c.rewrite.split_inserts == RewriteMode::Rewrite,
        ConfigWarning::NonAtomicSplitInserts,
    );
    assert(out@ == first + login_warnings(c.general) + rewrite_warnings(*c));
}

fn warn_routing(c: &Config, out: &mut Vec<ConfigWarning>)
    ensures
        final(out)@ == old(out)@ + mirror_warnings(
            c.general.query_parser,
            c.databases@,
            c.mirroring@,
            c.mirroring@.len(),
        ) + split_warnings(*c),
{
    let ghost start = out@;
    for i in 0..c.mirroring.len()
        invariant
            out@ == start + mirror_warnings(
                c.general.query_parser,
                c.databases@,
                c.mirroring@,
                i as nat,
            ),
    {
        let blind = find_first_blind(c.general.query_parser, &c.databases, &c.mirroring, i);
        warn(out, blind, ConfigWarning::MirrorNeedsParser { mirror: i });
    }
    let ghost middle = out@;
    let exclude = c.general.read_write_split == ReadWriteSplit::ExcludePrimary;
    if exclude {
        for i in 0..c.databases.len()
            invariant
                out@ == middle + replica_warnings(c.databases@, i as nat),
        {
            let lacking = find_first(&c.databases, i) == i && !find_replica(
                &c.databases,
                c.databases[i].name.as_str(),
            );
            warn(out, lacking, ConfigWarning::NoReplicas { entry: i });
        }
    }
    let blind = c.general.read_write_split == ReadWriteSplit::PreferPrimary
        && c.general.query_parser == QueryParserLevel::Off;
    warn(out, blind, ConfigWarning::PreferPrimaryWithoutParser);
    assert(out@ == middle + split_warnings(*c));
}

proof fn lemma_append(a: Seq<ConfigWarning>, b: Seq<ConfigWarning>, c: Seq<ConfigWarning>)
    ensures
        a + (b + c) == (a + b) + c,
{
}

/// The parts of all warnings, given one after the other, are all warnings.
proof fn lemma_warnings_in_order(start: Seq<ConfigWarning>, c: Config)
    ensures
        start + entry_warnings(c) + when(
            c.general.ban_timeout > 0 && c.general.idle_healthcheck_interval
                >= c.general.ban_timeout,
            ConfigWarning::HealthcheckTooRare {
                interval: c.general.idle_healthcheck_interval,
                ban_timeout: c.general.ban_timeout,
            },
        ) + login_warnings(c.general) + rewrite_warnings(c) + mirror_warnings(
            c.general.query_parser,
            c.databases@,
            c.mirroring@,
            c.mirroring@.len(),
        ) + split_warnings(c) + when(
            c.general.query_parser_enabled,
            ConfigWarning::DeprecatedParserSetting,
        ) + when(stack_too_small(c), ConfigWarning::StackRaised) == start + all_warnings(c),
{
    let p1 = entry_warnings(c);
    let p2 = when(
        c.general.ban_timeout > 0 && c.general.idle_healthcheck_interval >= c.general.ban_timeout,
        ConfigWarning::HealthcheckTooRare {
            interval: c.general.idle_healthcheck_interval,
            ban_timeout: c.general.ban_timeout,
        },
    );
    let p3 = login_warnings(c.general);
    let p4 = rewrite_warnings(c);
    let p5 = mirror_warnings(
        c.general.query_parser,
        c.databases@,
        c.mirroring@,
        c.mirroring@.len(),
    );
    let p6 = split_warnings(c);
    let p7 = when(c.general.query_parser_enabled, ConfigWarning::DeprecatedParserSetting);
    let p8 = when(stack_too_small(c), ConfigWarning::StackRaised);
    lemma_append(start, p1, p2);
    lemma_append(start, p1 + p2, p3);
    lemma_append(start, p1 + p2 + p3, p4);
    lemma_append(start, p1 + p2 + p3 + p4, p5);
    lemma_append(start, p1 + p2 + p3 + p4 + p5, p6);
    lemma_append(start, p1 + p2 + p3 + p4 + p5 + p6, p7);
    lemma_append(start, p1 + p2 + p3 + p4 + p5 + p6 + p7, p8);
}

impl Config {
    /// Give every warning that is due, in order, and replace deprecated and insufficient
    /// settings.
    pub fn check(&mut self, warnings: &mut Vec<ConfigWarning>)
        ensures
            final(warnings)@ == old(warnings)@ + all_warnings(*old(self)),
            *final(self) == corrected(*old(self)),
    {
        let ghost start = warnings@;
        warn_entries(self, warnings);
        warn_settings(self, warnings);
        warn_routing(self, warnings);
        warn(
            warnings,
            self.general.query_parser_enabled,
            ConfigWarning::DeprecatedParserSetting,
        );
        if self.general.query_parser_enabled {
            self.general.query_parser = QueryParserLevel::On;
        }
        let small = self.general.query_parser_engine == QueryParserEngine::PgQueryRaw
            && self.memory.stack_size < RAW_PARSER_STACK;
        if small {
            self.memory.stack_size = RAW_PARSER_STACK;
        }
        warn(warnings, small, ConfigWarning::StackRaised);
        proof {
            lemma_warnings_in_order(start, *old(self));
        }
    }
}

/// The place of a database entry in the cluster.
pub open spec fn shown_place(d: Database) -> Seq<char> {
    "database \""@ + d.name@ + "\" (shard="@ + decimal(d.shard as nat)
}

fn place_text(d: &Database) -> (r: String)
    ensures
        r@ == shown_place(*d),
{
    let mut out = owned("database \"");
    out.append(d.name.as_str());
    out.append("\" (shard=");
    out.append(decimal_text(d.shard as u64).as_str());
    out
}

impl ConfigWarning {
    /// The warning is about entries that the configuration has.
    pub open spec fn about(&self, c: Config) -> bool {
        match self {
            ConfigWarning::DuplicateDatabase { entry }
            | ConfigWarning::PoolerModeDiffers { entry }
            | ConfigWarning::MixedRoles { entry }
            | ConfigWarning::ParserNeeded { entry }
            | ConfigWarning::NoReplicas { entry } => *entry < c.databases@.len(),
            ConfigWarning::MirrorNeedsParser { mirror } => *mirror < c.mirroring@.len(),
            _ => true,
        }
    }

    /// What the warning says.
    pub open spec fn shown(&self, c: Config) -> Seq<char> {
        match self {
            ConfigWarning::DuplicateDatabase { entry } => {
                let d = c.databases@[*entry as int];
                shown_place(d) + ") has a duplicate "@ + d.role.shown()
            },
            ConfigWarning::PoolerModeDiffers { entry } => {
                let d = c.databases@[*entry as int];
                shown_place(d) + ", role="@ + d.role.shown()
                    + ") has a different \"pooler_mode\" setting, ignoring"@
            },
            ConfigWarning::MixedRoles { entry } => "database \""@
                + c.databases@[*entry as int].name@
                + "\" has a mix of auto and specific roles, automatic role detection will be disabled"@,
            ConfigWarning::ParserNeeded { entry } => "database \""@
                + c.databases@[*entry as int].name@
                + "\" may need the query parser for load balancing/sharding, but it's disabled"@,
            ConfigWarning::HealthcheckTooRare { interval, ban_timeout } =>
                "idle_healthcheck_interval ("@ + decimal(*interval as nat)
                + "ms) should be shorter than ban_timeout ("@ + decimal(*ban_timeout as nat)
                + "ms) to ensure health checks are triggered before a ban expires"@,
            ConfigWarning::PassthroughWithoutTls =>
                "consider setting \"tls_client_required\" while \"passthrough_auth\" is enabled to prevent clients from exposing plaintext passwords"@,
            ConfigWarning::PassthroughPlain =>
                "\"passthrough_auth\" is set to \"plain\", network traffic may expose plaintext passwords"@,
            ConfigWarning::NonAtomicKeyRewrite =>
                "rewrite.shard_key = \"rewrite\" may apply non-atomic sharding key rewrites; enabling \"two_phase_commit\" is strongly recommended"@,
            ConfigWarning::NonAtomicSplitInserts =>
                "rewrite.split_inserts = \"rewrite\" may commit partial multi-row inserts; enabling \"two_phase_commit\" is strongly recommended"@,
            ConfigWarning::MirrorNeedsParser { mirror } => {
                let m = c.mirroring@[*mirror as int];
                "mirroring from \""@ + m.source_db@ + "\" with level \""@ + m.level.shown()
                    + "\" requires the query parser to classify statements, but it won't be enabled, set query_parser = \"on\""@
            },
            ConfigWarning::NoReplicas { entry } => "database \""@
                + c.databases@[*entry as int].name@
                + "\" has no replicas and \"read_write_split\" is set to \""@
                + c.general.read_write_split.shown() + "\": read queries will be rejected"@,
            ConfigWarning::PreferPrimaryWithoutParser =>
                "\"read_write_split\" is \"prefer_primary\" but the query parser is disabled — reads cannot be identified, so all queries will route to the primary; use \"pgdog.role\" connection parameters to route reads explicitly"@,
            ConfigWarning::DeprecatedParserSetting =>
                "\"query_parser_enabled\" is deprecated, use \"query_parser\" = \"on\" instead"@,
            ConfigWarning::StackRaised =>
                "\"pg_query_raw\" parser engine requires a large thread stack, setting it to 32MiB for each Tokio worker"@,
        }
    }

    /// What the warning says.
    pub fn message(&self, c: &Config) -> (r: String)
        requires
            self.about(*c),
        ensures
            r@ == self.shown(*c),
    {
        match self {
            ConfigWarning::DuplicateDatabase { entry } => {
                let d = &c.databases[*entry];
                let mut out = place_text(d);
                out.append(") has a duplicate ");
                out.append(d.role.to_string().as_str());
                out
            },
            ConfigWarning::PoolerModeDiffers { entry } => {
                let d = &c.databases[*entry];
                let mut out = place_text(d);
                out.append(", role=");
                out.append(d.role.to_string().as_str());
                out.append(") has a different \"pooler_mode\" setting, ignoring");
                out
            },
            ConfigWarning::MixedRoles { entry } => {
                let mut out = owned("database \"");
                out.append(c.databases[*entry].name.as_str());
                out.append(
                    "\" has a mix of auto and specific roles, automatic role detection will be disabled",
                );
                out
            },
            ConfigWarning::ParserNeeded { entry } => {
                let mut out = owned("database \"");
                out.append(c.databases[*entry].name.as_str());
                out.append(
                    "\" may need the query parser for load balancing/sharding, but it's disabled",
                );
                out
            },
            ConfigWarning::HealthcheckTooRare { interval, ban_timeout } => {
                let mut out = owned("idle_healthcheck_interval (");
                out.append(decimal_text(*interval).as_str());
                out.append("ms) should be shorter than ban_timeout (");
                out.append(decimal_text(*ban_timeout).as_str());
                out.append("ms) to ensure health checks are triggered before a ban expires");
                out
            },
            ConfigWarning::PassthroughWithoutTls => owned(
                "consider setting \"tls_client_required\" while \"passthrough_auth\" is enabled to prevent clients from exposing plaintext passwords",
            ),
            ConfigWarning::PassthroughPlain => owned(
                "\"passthrough_auth\" is set to \"plain\", network traffic may expose plaintext passwords",
            ),
            ConfigWarning::NonAtomicKeyRewrite => owned(
                "rewrite.shard_key = \"rewrite\" may apply non-atomic sharding key rewrites; enabling \"two_phase_commit\" is strongly recommended",
            ),
            ConfigWarning::NonAtomicSplitInserts => owned(
                "rewrite.split_inserts = \"rewrite\" may commit partial multi-row inserts; enabling \"two_phase_commit\" is strongly recommended",
            ),
            ConfigWarning::MirrorNeedsParser { mirror } => {
                let m = &c.mirroring[*mirror];
                let mut out = owned("mirroring from \"");
                out.append(m.source_db.as_str());
                out.append("\" with level \"");
                out.append(m.level.to_string().as_str());
                out.append(
                    "\" requires the query parser to classify statements, but it won't be enabled, set query_parser = \"on\"",
                );
                out
            },
            ConfigWarning::NoReplicas { entry } => {
                let mut out = owned("database \"");
                out.append(c.databases[*entry].name.as_str());
                out.append("\" has no replicas and \"read_write_split\" is set to \"");
                out.append(c.general.read_write_split.to_string().as_str());
                out.append("\": read queries will be rejected");
                out
            },
            ConfigWarning::PreferPrimaryWithoutParser => owned(
                "\"read_write_split\" is \"prefer_primary\" but the query parser is disabled — reads cannot be identified, so all queries will route to the primary; use \"pgdog.role\" connection parameters to route reads explicitly",
            ),
            ConfigWarning::DeprecatedParserSetting => owned(
                "\"query_parser_enabled\" is deprecated, use \"query_parser\" = \"on\" instead",
            ),
            ConfigWarning::StackRaised => owned(
                "\"pg_query_raw\" parser engine requires a large thread stack, setting it to 32MiB for each Tokio worker",
            ),
        }
    }
}

/// Checking a configuration a second time corrects nothing more.
pub proof fn check_settles(c: Config)
    ensures
        corrected(corrected(c)) == corrected(c),
        !stack_too_small(corrected(c)),
{
}

} // verus!
