//! What a configuration means, told by its entries.

#[allow(unused_imports)]
use crate::config::check::{
    all_warnings, corrected, duplicate_at, duplicate_warnings, entry_warnings, first_blind_at,
    first_mixed_at, first_spread_at, has_replica, is_first, leads, login_warnings, mirror_warnings,
    mismatch_warnings, mixed_at, pooler_differs_at, replica_warnings, rewrite_warnings, same_server,
    spread_by, stack_too_small, split_warnings, ConfigWarning,
};
#[allow(unused_imports)]
use crate::config::database::{Database, EnumeratedDatabase, ReadWriteSplit, Role};
#[allow(unused_imports)]
use crate::config::general::{
    General, Mirroring, MirroringLevel, MirrorConfig, PassthroughAuth, QueryParserEngine,
    QueryParserLevel, RewriteMode, SystemCatalogsBehavior, TlsVerifyMode,
};
#[allow(unused_imports)]
use crate::config::loaded::{assembled, server_auth_fault, ConfigAndUsers};
#[allow(unused_imports)]
use crate::config::settings::{
    cut_over, entries_of, enumerated, entry_tables, first_mirror, group_key, last_query,
    has_omnisharded, listed_tables, mapping_key, mappings_for, mirrors_of, names_table, omnisharded_of, servers_of,
    shards_of, with_catalogs, Config, Keyed,
};
#[allow(unused_imports)]
use crate::config::sharding::{
    system_catalog_names, ManualQuery, OmnishardedTables, ShardedMapping,
};
#[allow(unused_imports)]
use crate::config::users::{PasswordKind, ServerAuth, User, Users};
use vstd::prelude::*;

verus! {

/// Some database entry before this one has the same name.
pub open spec fn seen_before(dbs: Seq<Database>, i: int) -> bool {
    exists|j: int| 0 <= j < i && (#[trigger] dbs[j]).name@ == dbs[i].name@
}

/// An entry of this name is a replica.
pub open spec fn replica_among(dbs: Seq<Database>, name: Seq<char>) -> bool {
    exists|k: int|
        0 <= k < dbs.len() && (#[trigger] dbs[k]).name@ == name && dbs[k].role == Role::Replica
}

/// An entry of this name is for another shard than the first.
pub open spec fn shard_among(dbs: Seq<Database>, name: Seq<char>) -> bool {
    exists|k: int| 0 <= k < dbs.len() && (#[trigger] dbs[k]).name@ == name && dbs[k].shard >= 1
}

/// An entry has this name.
pub open spec fn named(dbs: Seq<Database>, name: Seq<char>) -> bool {
    exists|k: int| 0 <= k < dbs.len() && (#[trigger] dbs[k]).name@ == name
}

/// The mirror needs statements to be told apart, and nobody does that.
pub open spec fn cannot_classify(c: Config, m: Mirroring) -> bool {
    &&& m.level != MirroringLevel::All
    &&& named(c.databases@, m.source_db@)
    &&& c.general.query_parser != QueryParserLevel::On
    &&& c.general.query_parser == QueryParserLevel::Auto ==> !replica_among(
        c.databases@,
        m.source_db@,
    ) && !shard_among(c.databases@, m.source_db@)
}

/// The configuration gives rise to this warning.
pub open spec fn has_reason(c: Config, w: ConfigWarning) -> bool {
    let g = c.general;
    match w {
        ConfigWarning::DuplicateDatabase { entry } => entry < c.databases@.len() && exists|j: int|
            {
                let (a, b) = (#[trigger] c.databases@[j], c.databases@[entry as int]);
                0 <= j < entry && a.name@ == b.name@ && a.host@ == b.host@ && a.port == b.port
                    && a.shard == b.shard && a.role == b.role
            },
        ConfigWarning::HealthcheckTooRare { interval, ban_timeout } => {
            &&& interval == g.idle_healthcheck_interval
            &&& ban_timeout == g.ban_timeout
            &&& 0 < g.ban_timeout <= g.idle_healthcheck_interval
        },
        ConfigWarning::PassthroughWithoutTls => g.passthrough_auth == PassthroughAuth::Enabled
            && !g.tls_client_required,
        ConfigWarning::PassthroughPlain => g.passthrough_auth == PassthroughAuth::EnabledPlain,
        ConfigWarning::NonAtomicKeyRewrite => c.rewrite.enabled && !g.two_phase_commit
            && c.rewrite.shard_key == RewriteMode::Rewrite,
        ConfigWarning::NonAtomicSplitInserts => c.rewrite.enabled && !g.two_phase_commit
            && c.rewrite.split_inserts == RewriteMode::Rewrite,
        ConfigWarning::MirrorNeedsParser { mirror } => {
            &&& mirror < c.mirroring@.len()
            &&& cannot_classify(c, c.mirroring@[mirror as int])
            &&& forall|j: int|
                0 <= j < mirror && (#[trigger] c.mirroring@[j]).source_db@
                    == c.mirroring@[mirror as int].source_db@ ==> !cannot_classify(
                    c,
                    c.mirroring@[j],
                )
        },
        ConfigWarning::NoReplicas { entry } => {
            &&& g.read_write_split == ReadWriteSplit::ExcludePrimary
            &&& entry < c.databases@.len()
            &&& !seen_before(c.databases@, entry as int)
            &&& !replica_among(c.databases@, c.databases@[entry as int].name@)
        },
        ConfigWarning::PreferPrimaryWithoutParser => g.read_write_split
            == ReadWriteSplit::PreferPrimary && g.query_parser == QueryParserLevel::Off,
        ConfigWarning::DeprecatedParserSetting => g.query_parser_enabled,
        ConfigWarning::StackRaised => g.query_parser_engine == QueryParserEngine::PgQueryRaw
            && c.memory.stack_size < 32 * 1024 * 1024,
        ConfigWarning::PoolerModeDiffers { entry } => entry < c.databases@.len()
            && pooler_differs_at(c.databases@, entry as int),
        ConfigWarning::MixedRoles { entry } => entry < c.databases@.len() && first_mixed_at(
            c.databases@,
            entry as int,
        ),
        ConfigWarning::ParserNeeded { entry } => entry < c.databases@.len() && g.query_parser
            == QueryParserLevel::Off && first_spread_at(c.databases@, entry as int),
    }
}

proof fn lemma_contains_sum<T>(a: Seq<T>, b: Seq<T>, x: T)
    ensures
        (a + b).contains(x) <==> a.contains(x) || b.contains(x),
{
    if a.contains(x) {
        let i = choose|i: int| 0 <= i < a.len() && a[i] == x;
        assert((a + b)[i] == x);
    }
    if b.contains(x) {
        let i = choose|i: int| 0 <= i < b.len() && b[i] == x;
        assert((a + b)[a.len() + i] == x);
    }
    if (a + b).contains(x) {
        let i = choose|i: int| 0 <= i < (a + b).len() && (a + b)[i] == x;
        if i < a.len() {
            assert(a[i] == x);
        } else {
            assert(b[i - a.len()] == x);
        }
    }
}

proof fn lemma_when(condition: bool, given: ConfigWarning, w: ConfigWarning)
    ensures
        crate::config::check::when(condition, given).contains(w) <==> condition && w == given,
{
    if condition {
        assert(crate::config::check::when(condition, given)[0] == given);
    }
}

proof fn lemma_duplicates(dbs: Seq<Database>, n: nat, w: ConfigWarning)
    requires
        n <= dbs.len() <= usize::MAX,
    ensures
        duplicate_warnings(dbs, n).contains(w) <==> (w matches ConfigWarning::DuplicateDatabase {
            entry,
        } && entry < n && duplicate_at(dbs, entry as int)),
    decreases n,
{
    if n > 0 {
        let i = n - 1;
        lemma_duplicates(dbs, i as nat, w);
        let given = ConfigWarning::DuplicateDatabase { entry: i as usize };
        lemma_when(duplicate_at(dbs, i), given, w);
        lemma_contains_sum(
            duplicate_warnings(dbs, i as nat),
            crate::config::check::when(duplicate_at(dbs, i), given),
            w,
        );
    }
}

proof fn lemma_mismatches(dbs: Seq<Database>, off: bool, n: nat, w: ConfigWarning)
    requires
        n <= dbs.len() <= usize::MAX,
    ensures
        mismatch_warnings(dbs, off, n).contains(w) <==> match w {
            ConfigWarning::PoolerModeDiffers { entry } => entry < n && pooler_differs_at(
                dbs,
                entry as int,
            ),
            ConfigWarning::MixedRoles { entry } => entry < n && first_mixed_at(dbs, entry as int),
            ConfigWarning::ParserNeeded { entry } => entry < n && off && first_spread_at(
                dbs,
                entry as int,
            ),
            _ => false,
        },
    decreases n,
{
    if n > 0 {
        let i = n - 1;
        lemma_mismatches(dbs, off, i as nat, w);
        let a = mismatch_warnings(dbs, off, i as nat);
        let x = ConfigWarning::PoolerModeDiffers { entry: i as usize };
        let y = ConfigWarning::MixedRoles { entry: i as usize };
        let z = ConfigWarning::ParserNeeded { entry: i as usize };
        let (b, c, d) = (
            crate::config::check::when(pooler_differs_at(dbs, i), x),
            crate::config::check::when(first_mixed_at(dbs, i), y),
            crate::config::check::when(off && first_spread_at(dbs, i), z),
        );
        lemma_when(pooler_differs_at(dbs, i), x, w);
        lemma_when(first_mixed_at(dbs, i), y, w);
        lemma_when(off && first_spread_at(dbs, i), z, w);
        lemma_contains_sum(a, b, w);
        lemma_contains_sum(a + b, c, w);
        lemma_contains_sum(a + b + c, d, w);
    }
}

proof fn lemma_mirrors(
    level: QueryParserLevel,
    dbs: Seq<Database>,
    mirrors: Seq<Mirroring>,
    n: nat,
    w: ConfigWarning,
)
    requires
        n <= mirrors.len() <= usize::MAX,
    ensures
        mirror_warnings(level, dbs, mirrors, n).contains(w) <==> (
        w matches ConfigWarning::MirrorNeedsParser { mirror } && mirror < n && first_blind_at(
            level,
            dbs,
            mirrors,
            mirror as int,
        )),
    decreases n,
{
    if n > 0 {
        let i = n - 1;
        lemma_mirrors(level, dbs, mirrors, i as nat, w);
        let given = ConfigWarning::MirrorNeedsParser { mirror: i as usize };
        let blind = first_blind_at(level, dbs, mirrors, i);
        lemma_when(blind, given, w);
        lemma_contains_sum(
            mirror_warnings(level, dbs, mirrors, i as nat),
            crate::config::check::when(blind, given),
            w,
        );
    }
}

proof fn lemma_replicas(dbs: Seq<Database>, n: nat, w: ConfigWarning)
    requires
        n <= dbs.len() <= usize::MAX,
    ensures
        replica_warnings(dbs, n).contains(w) <==> (w matches ConfigWarning::NoReplicas { entry }
            && entry < n && is_first(dbs, entry as int) && !has_replica(
            dbs,
            dbs[entry as int].name@,
        )),
    decreases n,
{
    if n > 0 {
        let i = n - 1;
        lemma_replicas(dbs, i as nat, w);
        let given = ConfigWarning::NoReplicas { entry: i as usize };
        let due = is_first(dbs, i) && !has_replica(dbs, dbs[i].name@);
        lemma_when(due, given, w);
        lemma_contains_sum(replica_warnings(dbs, i as nat), crate::config::check::when(due, given), w);
    }
}

proof fn lemma_all_warnings(c: Config, w: ConfigWarning)
    requires
        c.databases@.len() <= usize::MAX,
        c.mirroring@.len() <= usize::MAX,
    ensures
        all_warnings(c).contains(w) <==> {
            ||| duplicate_warnings(c.databases@, c.databases@.len()).contains(w)
            ||| mismatch_warnings(
                c.databases@,
                c.general.query_parser == QueryParserLevel::Off,
                c.databases@.len(),
            ).contains(w)
            ||| crate::config::check::when(
                c.general.ban_timeout > 0 && c.general.idle_healthcheck_interval
                    >= c.general.ban_timeout,
                ConfigWarning::HealthcheckTooRare {
                    interval: c.general.idle_healthcheck_interval,
                    ban_timeout: c.general.ban_timeout,
                },
            ).contains(w)
            ||| login_warnings(c.general).contains(w)
            ||| rewrite_warnings(c).contains(w)
            ||| mirror_warnings(
                c.general.query_parser,
                c.databases@,
                c.mirroring@,
                c.mirroring@.len(),
            ).contains(w)
            ||| split_warnings(c).contains(w)
            ||| crate::config::check::when(
                c.general.query_parser_enabled,
                ConfigWarning::DeprecatedParserSetting,
            ).contains(w)
            ||| crate::config::check::when(stack_too_small(c), ConfigWarning::StackRaised).contains(w)
        },
{
    let p0 = duplicate_warnings(c.databases@, c.databases@.len());
    let p1 = mismatch_warnings(
        c.databases@,
        c.general.query_parser == QueryParserLevel::Off,
        c.databases@.len(),
    );
    let p2 = crate::config::check::when(
        c.general.ban_timeout > 0 && c.general.idle_healthcheck_interval >= c.general.ban_timeout,
        ConfigWarning::HealthcheckTooRare {
            interval: c.general.idle_healthcheck_interval,
            ban_timeout: c.general.ban_timeout,
        },
    );
    let p3 = login_warnings(c.general);
    let p4 = rewrite_warnings(c);
    let p5 = mirror_warnings(
        c.general.query_parser,
        c.databases@,
        c.mirroring@,
        c.mirroring@.len(),
    );
    let p6 = split_warnings(c);
    let p7 = crate::config::check::when(c.general.query_parser_enabled, ConfigWarning::DeprecatedParserSetting);
    let p8 = crate::config::check::when(stack_too_small(c), ConfigWarning::StackRaised);
    lemma_contains_sum(p0, p1, w);
    lemma_contains_sum(p0 + p1, p2, w);
    lemma_contains_sum(p0 + p1 + p2, p3, w);
    lemma_contains_sum(p0 + p1 + p2 + p3, p4, w);
    lemma_contains_sum(p0 + p1 + p2 + p3 + p4, p5, w);
    lemma_contains_sum(p0 + p1 + p2 + p3 + p4 + p5, p6, w);
    lemma_contains_sum(p0 + p1 + p2 + p3 + p4 + p5 + p6, p7, w);
    lemma_contains_sum(p0 + p1 + p2 + p3 + p4 + p5 + p6 + p7, p8, w);
}

/// Every warning that a configuration gives rise to is given, and no other one.
pub proof fn warnings_have_reasons(c: Config, w: ConfigWarning)
    requires
        c.databases@.len() <= usize::MAX,
        c.mirroring@.len() <= usize::MAX,
    ensures
        all_warnings(c).contains(w) <==> has_reason(c, w),
{
    let dbs = c.databases@;
    let off = c.general.query_parser == QueryParserLevel::Off;
    lemma_all_warnings(c, w);
    lemma_duplicates(dbs, dbs.len(), w);
    lemma_mismatches(dbs, off, dbs.len(), w);
    lemma_mirrors(c.general.query_parser, dbs, c.mirroring@, c.mirroring@.len(), w);
    lemma_replicas(dbs, dbs.len(), w);
    lemma_when(
        c.general.ban_timeout > 0 && c.general.idle_healthcheck_interval >= c.general.ban_timeout,
        ConfigWarning::HealthcheckTooRare {
            interval: c.general.idle_healthcheck_interval,
            ban_timeout: c.general.ban_timeout,
        },
        w,
    );
    lemma_when(!c.general.tls_client_required, ConfigWarning::PassthroughWithoutTls, w);
    lemma_when(true, ConfigWarning::PassthroughPlain, w);
    let risky = !c.general.two_phase_commit && c.rewrite.enabled;
    let key = risky && c.rewrite.shard_key == RewriteMode::Rewrite;
    let split = risky && c.rewrite.split_inserts == RewriteMode::Rewrite;
    lemma_when(key, ConfigWarning::NonAtomicKeyRewrite, w);
    lemma_when(split, ConfigWarning::NonAtomicSplitInserts, w);
    lemma_contains_sum(
        crate::config::check::when(key, ConfigWarning::NonAtomicKeyRewrite),
        crate::config::check::when(split, ConfigWarning::NonAtomicSplitInserts),
        w,
    );
    let blind = c.general.read_write_split == ReadWriteSplit::PreferPrimary && off;
    lemma_when(blind, ConfigWarning::PreferPrimaryWithoutParser, w);
    lemma_contains_sum(
        if c.general.read_write_split == ReadWriteSplit::ExcludePrimary {
            replica_warnings(dbs, dbs.len())
        } else {
            Seq::empty()
        },
        crate::config::check::when(blind, ConfigWarning::PreferPrimaryWithoutParser),
        w,
    );
    lemma_when(
        c.general.query_parser_enabled,
        ConfigWarning::DeprecatedParserSetting,
        w,
    );
    lemma_when(stack_too_small(c), ConfigWarning::StackRaised, w);
    match w {
        ConfigWarning::DuplicateDatabase { entry } => {
            let i = entry as int;
            if entry < dbs.len() && duplicate_at(dbs, i) {
                let j = choose|j: int| 0 <= j < i && same_server(#[trigger] dbs[j], dbs[i]);
                assert(dbs[j].name@ == dbs[i].name@);
            }
            if has_reason(c, w) {
                let j = choose|j: int|
                    {
                        let (a, b) = (#[trigger] c.databases@[j], c.databases@[i]);
                        0 <= j < entry && a.name@ == b.name@ && a.host@ == b.host@ && a.port
                            == b.port && a.shard == b.shard && a.role == b.role
                    };
                assert(same_server(dbs[j], dbs[i]));
            }
        },
        ConfigWarning::MirrorNeedsParser { mirror } => {},
        ConfigWarning::NoReplicas { entry } => {},
        _ => {},
    }
}

/// A check only ever raises the stack of worker threads, and raises it as far as the raw parser needs
/// it; it turns the parser on where the old setting asks for it, and changes nothing else.
pub proof fn corrections_are_enough(c: Config)
    ensures
        corrected(c).memory.stack_size >= c.memory.stack_size,
        c.general.query_parser_engine == QueryParserEngine::PgQueryRaw
            ==> corrected(c).memory.stack_size >= 32 * 1024 * 1024,
        c.general.query_parser_engine != QueryParserEngine::PgQueryRaw || c.memory.stack_size >= 32
            * 1024 * 1024 ==> corrected(c).memory.stack_size == c.memory.stack_size,
        c.memory.stack_size < corrected(c).memory.stack_size ==> corrected(c).memory.stack_size
            == 32 * 1024 * 1024,
        c.general.query_parser_enabled ==> corrected(c).general.query_parser
            == QueryParserLevel::On,
        !c.general.query_parser_enabled ==> corrected(c).general == c.general,
        corrected(c).databases == c.databases && corrected(c).mirroring == c.mirroring
            && corrected(c).admin == c.admin && corrected(c).rewrite == c.rewrite,
        corrected(c).memory.net_buffer == c.memory.net_buffer && corrected(c).memory.message_buffer
            == c.memory.message_buffer,
{
}

proof fn lemma_first_entry(dbs: Seq<Database>, i: int) -> (f: int)
    requires
        0 <= i < dbs.len(),
    ensures
        0 <= f <= i,
        is_first(dbs, f),
        dbs[f].name@ == dbs[i].name@,
    decreases i,
{
    if is_first(dbs, i) {
        i
    } else {
        let j = choose|j: int| 0 <= j < i && (#[trigger] dbs[j]).name@ == dbs[i].name@;
        lemma_first_entry(dbs, j)
    }
}

proof fn lemma_first_mix(dbs: Seq<Database>, i: int) -> (k: int)
    requires
        0 <= i < dbs.len(),
        mixed_at(dbs, i),
    ensures
        0 <= k <= i,
        dbs[k].name@ == dbs[i].name@,
        first_mixed_at(dbs, k),
    decreases i,
{
    if first_mixed_at(dbs, i) {
        i
    } else {
        let j = choose|j: int|
            0 <= j < i && (#[trigger] dbs[j]).name@ == dbs[i].name@ && mixed_at(dbs, j);
        lemma_first_mix(dbs, j)
    }
}

/// Whoever leaves the role of one server of a database to be detected and fixes that of another one
/// is warned, at one of the entries of that database.
pub proof fn mixed_roles_are_noticed(c: Config, a: int, b: int)
    requires
        c.databases@.len() <= usize::MAX,
        c.mirroring@.len() <= usize::MAX,
        0 <= a < c.databases@.len(),
        0 <= b < c.databases@.len(),
        c.databases@[a].name@ == c.databases@[b].name@,
        c.databases@[a].role == Role::Auto,
        c.databases@[b].role != Role::Auto,
    ensures
        exists|k: int|
            0 <= k < c.databases@.len() && (#[trigger] c.databases@[k]).name@
                == c.databases@[a].name@ && all_warnings(c).contains(
                ConfigWarning::MixedRoles { entry: k as usize },
            ),
{
    let dbs = c.databases@;
    let f = lemma_first_entry(dbs, a);
    let g = lemma_first_entry(dbs, b);
    if f < g {
        assert(dbs[f].name@ != dbs[g].name@);
    } else if g < f {
        assert(dbs[g].name@ != dbs[f].name@);
    }
    let i = if dbs[f].role == Role::Auto {
        b
    } else {
        a
    };
    assert(leads(dbs, f, i));
    assert(mixed_at(dbs, i));
    let k = lemma_first_mix(dbs, i);
    warnings_have_reasons(c, ConfigWarning::MixedRoles { entry: k as usize });
    assert(dbs[k].name@ == dbs[a].name@);
}

/// Nobody is warned of mixed roles without having mixed them, nor of a pooler mode that differs
/// without two entries of the database that differ.
pub proof fn only_mixed_roles_are_noticed(c: Config, k: int)
    requires
        c.databases@.len() <= usize::MAX,
        c.mirroring@.len() <= usize::MAX,
        0 <= k < c.databases@.len(),
    ensures
        all_warnings(c).contains(ConfigWarning::MixedRoles { entry: k as usize }) ==> exists|
            j: int,
        |
            0 <= j < k && (#[trigger] c.databases@[j]).name@ == c.databases@[k].name@ && (
            c.databases@[j].role == Role::Auto) != (c.databases@[k].role == Role::Auto),
        all_warnings(c).contains(ConfigWarning::PoolerModeDiffers { entry: k as usize }) <==> exists|
            j: int,
        |
            0 <= j < k && (#[trigger] c.databases@[j]).name@ == c.databases@[k].name@ && !seen_before(
                c.databases@,
                j,
            ) && c.databases@[j].pooler_mode != c.databases@[k].pooler_mode,
{
    let dbs = c.databases@;
    warnings_have_reasons(c, ConfigWarning::MixedRoles { entry: k as usize });
    warnings_have_reasons(c, ConfigWarning::PoolerModeDiffers { entry: k as usize });
    if mixed_at(dbs, k) {
        let f = choose|f: int| #[trigger]
            leads(dbs, f, k) && (dbs[f].role == Role::Auto || dbs[k].role == Role::Auto)
                && dbs[f].role != dbs[k].role;
        assert(dbs[f].name@ == dbs[k].name@);
    }
    if pooler_differs_at(dbs, k) {
        let f = choose|f: int| #[trigger]
            leads(dbs, f, k) && dbs[f].pooler_mode != dbs[k].pooler_mode;
        assert(dbs[f].name@ == dbs[k].name@ && !seen_before(dbs, f));
    }
    if exists|j: int|
        0 <= j < k && (#[trigger] dbs[j]).name@ == dbs[k].name@ && !seen_before(dbs, j)
            && dbs[j].pooler_mode != dbs[k].pooler_mode {
        let j = choose|j: int|
            0 <= j < k && (#[trigger] dbs[j]).name@ == dbs[k].name@ && !seen_before(dbs, j)
                && dbs[j].pooler_mode != dbs[k].pooler_mode;
        assert(leads(dbs, j, k));
    }
}

proof fn lemma_first_spread(dbs: Seq<Database>, i: int) -> (k: int)
    requires
        0 <= i < dbs.len(),
        !is_first(dbs, i),
        spread_by(dbs, i),
    ensures
        0 <= k <= i,
        dbs[k].name@ == dbs[i].name@,
        first_spread_at(dbs, k),
    decreases i,
{
    if first_spread_at(dbs, i) {
        i
    } else {
        let j = choose|j: int|
            0 <= j < i && (#[trigger] dbs[j]).name@ == dbs[i].name@ && !is_first(dbs, j)
                && spread_by(dbs, j);
        lemma_first_spread(dbs, j)
    }
}

/// Whoever turns the parser off although a database of several entries has shards or replicas is
/// warned, at one of the entries of that database. `a` is such an entry, `b` another one.
pub proof fn missing_parsers_are_noticed(c: Config, a: int, b: int)
    requires
        c.databases@.len() <= usize::MAX,
        c.mirroring@.len() <= usize::MAX,
        c.general.query_parser == QueryParserLevel::Off,
        0 <= a < c.databases@.len(),
        0 <= b < c.databases@.len(),
        a != b,
        c.databases@[a].name@ == c.databases@[b].name@,
        c.databases@[a].role == Role::Replica || c.databases@[a].shard > 0,
    ensures
        exists|k: int|
            0 <= k < c.databases@.len() && (#[trigger] c.databases@[k]).name@
                == c.databases@[a].name@ && all_warnings(c).contains(
                ConfigWarning::ParserNeeded { entry: k as usize },
            ),
{
    let dbs = c.databases@;
    let i = if a < b {
        b
    } else {
        a
    };
    let j = if a < b {
        a
    } else {
        b
    };
    assert(dbs[j].name@ == dbs[i].name@);
    assert(!is_first(dbs, i));
    assert(spread_by(dbs, i)) by {
        assert(dbs[a].name@ == dbs[i].name@);
    }
    let k = lemma_first_spread(dbs, i);
    warnings_have_reasons(c, ConfigWarning::ParserNeeded { entry: k as usize });
    assert(dbs[k].name@ == dbs[a].name@);
}

/// Nobody is warned of a missing parser unless it is off and the database has shards or replicas.
pub proof fn only_missing_parsers_are_noticed(c: Config, k: int)
    requires
        c.databases@.len() <= usize::MAX,
        c.mirroring@.len() <= usize::MAX,
        0 <= k < c.databases@.len(),
        all_warnings(c).contains(ConfigWarning::ParserNeeded { entry: k as usize }),
    ensures
        c.general.query_parser == QueryParserLevel::Off,
        seen_before(c.databases@, k),
        replica_among(c.databases@, c.databases@[k].name@) || shard_among(
            c.databases@,
            c.databases@[k].name@,
        ),
{
    let dbs = c.databases@;
    warnings_have_reasons(c, ConfigWarning::ParserNeeded { entry: k as usize });
    let j = choose|j: int|
        0 <= j <= k && (#[trigger] dbs[j]).name@ == dbs[k].name@ && crate::config::check::spreads(
            dbs[j],
        );
    assert(dbs[j].name@ == dbs[k].name@);
}

/// The mirror between two databases is the first one configured between them, with its own settings
/// where it has any and the general ones where it has none. `i` is any mirror.
pub proof fn the_first_mirror_counts(
    general: General,
    mirroring: Seq<Mirroring>,
    source: Seq<char>,
    destination: Seq<char>,
    i: int,
)
    requires
        0 <= i < mirroring.len(),
    ensures
        mirroring[i].source_db@ == source && mirroring[i].destination_db@ == destination
            ==> first_mirror(general, mirroring, source, destination) is Some,
        first_mirror(general, mirroring, source, destination) matches Some(found) ==> exists|k: int|
            {
                let m = #[trigger] mirroring[k];
                &&& 0 <= k < mirroring.len()
                &&& m.source_db@ == source && m.destination_db@ == destination
                &&& mirroring[i].source_db@ == source && mirroring[i].destination_db@ == destination
                    ==> k <= i
                &&& found.level == m.level
                &&& m.queue_length matches Some(n) ==> found.queue_length == n
                &&& m.queue_length is None ==> found.queue_length == general.mirror_queue
                &&& m.exposure matches Some(e) ==> found.exposure == e
                &&& m.exposure is None ==> found.exposure == general.mirror_exposure
            },
    decreases mirroring.len(),
{
    let rest = mirroring.skip(1);
    if mirroring[0].source_db@ == source && mirroring[0].destination_db@ == destination {
        assert(mirroring[0].source_db@ == source);
    } else if rest.len() > 0 {
        let j = if i > 0 {
            i - 1
        } else {
            0
        };
        the_first_mirror_counts(general, rest, source, destination, j);
        assert(rest[j] == mirroring[j + 1]);
        if first_mirror(general, mirroring, source, destination) is Some {
            let found = first_mirror(general, mirroring, source, destination)->Some_0;
            let k = choose|k: int|
                {
                    let m = #[trigger] rest[k];
                    &&& 0 <= k < rest.len()
                    &&& m.source_db@ == source && m.destination_db@ == destination
                    &&& rest[j].source_db@ == source && rest[j].destination_db@ == destination ==> k
                        <= j
                    &&& found.level == m.level
                    &&& m.queue_length matches Some(n) ==> found.queue_length == n
                    &&& m.queue_length is None ==> found.queue_length == general.mirror_queue
                    &&& m.exposure matches Some(e) ==> found.exposure == e
                    &&& m.exposure is None ==> found.exposure == general.mirror_exposure
                };
            assert(mirroring[k + 1] == rest[k]);
        }
    }
}

/// A database has as many shards as its highest shard number asks for: some entry is for the last
/// one.
pub proof fn the_last_shard_is_configured(databases: Seq<Database>, name: Seq<char>)
    ensures
        shards_of(databases, name) > 0 ==> exists|i: int|
            0 <= i < databases.len() && (#[trigger] databases[i]).name@ == name
                && databases[i].shard + 1 == shards_of(databases, name),
    decreases databases.len(),
{
    if databases.len() > 0 {
        let short = databases.drop_last();
        the_last_shard_is_configured(short, name);
        let last = databases.last();
        if last.name@ == name && last.shard + 1 > shards_of(short, name) {
            assert(databases[databases.len() - 1].name@ == name);
        } else if shards_of(short, name) > 0 {
            let i = choose|i: int|
                0 <= i < short.len() && (#[trigger] short[i]).name@ == name && short[i].shard + 1
                    == shards_of(short, name);
            assert(databases[i] == short[i]);
        }
    }
}

/// A cutover swaps two databases: what was one is the other, in every list of the configuration, and
/// everything else stays.
pub proof fn cutover_swaps_databases(
    before: Config,
    after: Config,
    source: Seq<char>,
    destination: Seq<char>,
    i: int,
)
    requires
        cut_over(before, after, source, destination),
    ensures
        0 <= i < before.databases@.len() ==> is_swapped(
            before.databases@[i].name@,
            after.databases@[i].name@,
            source,
            destination,
        ) && after.databases@[i].host == before.databases@[i].host && after.databases@[i].port
            == before.databases@[i].port && after.databases@[i].shard == before.databases@[i].shard
            && after.databases@[i].role == before.databases@[i].role,
        0 <= i < before.sharded_tables@.len() ==> is_swapped(
            before.sharded_tables@[i].database@,
            after.sharded_tables@[i].database@,
            source,
            destination,
        ) && after.sharded_tables@[i].column == before.sharded_tables@[i].column,
        0 <= i < before.sharded_mappings@.len() ==> is_swapped(
            before.sharded_mappings@[i].database@,
            after.sharded_mappings@[i].database@,
            source,
            destination,
        ) && after.sharded_mappings@[i].shard == before.sharded_mappings@[i].shard,
        0 <= i < before.omnisharded_tables@.len() ==> is_swapped(
            before.omnisharded_tables@[i].database@,
            after.omnisharded_tables@[i].database@,
            source,
            destination,
        ) && after.omnisharded_tables@[i].tables == before.omnisharded_tables@[i].tables,
        0 <= i < before.mirroring@.len() ==> is_swapped(
            before.mirroring@[i].source_db@,
            after.mirroring@[i].source_db@,
            source,
            destination,
        ) && is_swapped(
            before.mirroring@[i].destination_db@,
            after.mirroring@[i].destination_db@,
            source,
            destination,
        ),
        after.databases@.len() == before.databases@.len() && after.mirroring@.len()
            == before.mirroring@.len(),
        after.general == before.general && after.admin == before.admin && after.sharded_schemas
            == before.sharded_schemas && after.manual_queries == before.manual_queries,
{
}

/// One name in place of another after two were swapped.
pub open spec fn is_swapped(
    old_name: Seq<char>,
    new_name: Seq<char>,
    source: Seq<char>,
    destination: Seq<char>,
) -> bool {
    &&& old_name == source ==> new_name == destination
    &&& old_name == destination ==> new_name == source
    &&& old_name != source && old_name != destination ==> new_name == old_name
}

/// Of several queries with one fingerprint, the last one counts. `i` is any query.
pub proof fn the_last_query_counts(queries: Seq<ManualQuery>, fingerprint: Seq<char>, i: int)
    requires
        0 <= i < queries.len(),
    ensures
        queries[i].fingerprint@ == fingerprint ==> last_query(queries, fingerprint) is Some,
        last_query(queries, fingerprint) matches Some(q) ==> exists|k: int|
            {
                &&& 0 <= k < queries.len()
                &&& (#[trigger] queries[k]) == q && q.fingerprint@ == fingerprint
                &&& queries[i].fingerprint@ == fingerprint ==> i <= k
            },
    decreases queries.len(),
{
    let n = queries.len() - 1;
    let short = queries.drop_last();
    if queries[n].fingerprint@ != fingerprint {
        if n > 0 {
            let j = if i < n {
                i
            } else {
                0
            };
            the_last_query_counts(short, fingerprint, j);
            if last_query(queries, fingerprint) is Some {
                let q = last_query(queries, fingerprint)->Some_0;
                let k = choose|k: int|
                    {
                        &&& 0 <= k < short.len()
                        &&& (#[trigger] short[k]) == q && q.fingerprint@ == fingerprint
                        &&& short[j].fingerprint@ == fingerprint ==> j <= k
                    };
                assert(queries[k] == short[k]);
            }
        }
    } else {
        assert(queries[n].fingerprint@ == fingerprint);
    }
}

proof fn lemma_catalogs_kept(
    tables: Seq<(Seq<char>, bool)>,
    catalogs: Seq<Seq<char>>,
    sticky: bool,
)
    ensures
        with_catalogs(tables, catalogs, sticky).len() >= tables.len(),
        with_catalogs(tables, catalogs, sticky).take(tables.len() as int) == tables,
        forall|k: int|
            tables.len() <= k < with_catalogs(tables, catalogs, sticky).len() ==> {
                let t = #[trigger] with_catalogs(tables, catalogs, sticky)[k];
                t.1 == sticky && catalogs.contains(t.0) && !names_table(tables, t.0)
            },
        forall|j: int|
            0 <= j < catalogs.len() ==> names_table(
                with_catalogs(tables, catalogs, sticky),
                #[trigger] catalogs[j],
            ),
    decreases catalogs.len(),
{
    let all = with_catalogs(tables, catalogs, sticky);
    if catalogs.len() == 0 {
        assert(tables.take(tables.len() as int) == tables);
    } else {
        let short = catalogs.drop_last();
        lemma_catalogs_kept(tables, short, sticky);
        let before = with_catalogs(tables, short, sticky);
        assert(all.take(tables.len() as int) == tables);
        assert forall|j: int| 0 <= j < catalogs.len() implies names_table(
            all,
            #[trigger] catalogs[j],
        ) by {
            if j < short.len() {
                assert(short[j] == catalogs[j]);
                let i = choose|i: int|
                    0 <= i < before.len() && (#[trigger] before[i]).0 == catalogs[j];
                assert(all[i] == before[i]);
            } else if !names_table(before, catalogs.last()) {
                assert(all[before.len() as int].0 == catalogs[j]);
            }
        }
        assert forall|k: int| tables.len() <= k < all.len() implies {
            let t = #[trigger] all[k];
            t.1 == sticky && catalogs.contains(t.0) && !names_table(tables, t.0)
        } by {
            if k < before.len() {
                assert(all[k] == before[k]);
                let t = before[k];
                let j = choose|j: int| 0 <= j < short.len() && short[j] == t.0;
                assert(catalogs[j] == t.0);
            } else {
                assert(catalogs[catalogs.len() - 1] == all[k].0);
                if names_table(tables, all[k].0) {
                    let i = choose|i: int|
                        0 <= i < tables.len() && (#[trigger] tables[i]).0 == all[k].0;
                    assert(before.take(tables.len() as int)[i] == before[i]);
                    assert(before[i].0 == all[k].0);
                }
            }
        }
    }
}

/// Tables that are listed as the same on all shards come first, as they are listed. System catalogs
/// that are not listed follow for every configured database, unless they are sharded; whether a
/// client sticks to one shard for them is up to the setting.
pub proof fn system_catalogs_are_everywhere(config: Config, name: Seq<char>, j: int)
    requires
        0 <= j < system_catalog_names().len(),
    ensures
        ({
            let listed = listed_tables(config.omnisharded_tables@, name);
            let all = omnisharded_of(config, name);
            &&& listed.len() <= all.len()
            &&& all.take(listed.len() as int) == listed
            &&& config.general.system_catalogs == SystemCatalogsBehavior::Sharded || !named(
                config.databases@,
                name,
            ) ==> all == listed
            &&& config.general.system_catalogs != SystemCatalogsBehavior::Sharded && named(
                config.databases@,
                name,
            ) ==> {
                &&& exists|k: int|
                    0 <= k < all.len() && (#[trigger] all[k]).0 == system_catalog_names()[j]
                &&& forall|k: int|
                    listed.len() <= k < all.len() ==> ((#[trigger] all[k]).1 <==> config.general.system_catalogs
                        == SystemCatalogsBehavior::OmnishardedSticky)
            }
        }),
{
    let listed = listed_tables(config.omnisharded_tables@, name);
    lemma_catalogs_kept(
        listed,
        system_catalog_names(),
        config.general.system_catalogs == SystemCatalogsBehavior::OmnishardedSticky,
    );
    assert(listed.take(listed.len() as int) == listed);
    if config.general.system_catalogs != SystemCatalogsBehavior::Sharded && named(
        config.databases@,
        name,
    ) {
        let all = omnisharded_of(config, name);
        assert(names_table(all, system_catalog_names()[j]));
    }
}

/// A table is listed for a database exactly if an entry of the database names it, and it is sticky if
/// that entry is.
pub proof fn listed_tables_are_configured(
    entries: Seq<OmnishardedTables>,
    name: Seq<char>,
    table: (Seq<char>, bool),
)
    ensures
        listed_tables(entries, name).contains(table) <==> exists|i: int, j: int|
            0 <= i < entries.len() && 0 <= j < entries[i].tables@.len() && entries[i].database@
                == name && (#[trigger] entries[i].tables@[j])@ == table.0 && entries[i].sticky
                == table.1,
    decreases entries.len(),
{
    if entries.len() > 0 {
        let short = entries.drop_last();
        let last = entries.last();
        listed_tables_are_configured(short, name, table);
        lemma_contains_sum(listed_tables(short, name), entry_tables(last), table);
        if entry_tables(last).contains(table) {
            let j = choose|j: int| 0 <= j < entry_tables(last).len() && entry_tables(last)[j] == table;
            assert(entries[entries.len() - 1].tables@[j]@ == table.0);
        }
        if listed_tables(short, name).contains(table) {
            let (i, j) = choose|i: int, j: int|
                0 <= i < short.len() && 0 <= j < short[i].tables@.len() && short[i].database@ == name
                    && (#[trigger] short[i].tables@[j])@ == table.0 && short[i].sticky == table.1;
            assert(entries[i] == short[i]);
            assert(entries[i].tables@[j]@ == table.0);
        }
        if exists|i: int, j: int|
            0 <= i < entries.len() && 0 <= j < entries[i].tables@.len() && entries[i].database@
                == name && (#[trigger] entries[i].tables@[j])@ == table.0 && entries[i].sticky
                == table.1 {
            let (i, j) = choose|i: int, j: int|
                0 <= i < entries.len() && 0 <= j < entries[i].tables@.len() && entries[i].database@
                    == name && (#[trigger] entries[i].tables@[j])@ == table.0 && entries[i].sticky
                    == table.1;
            if i < short.len() {
                assert(short[i] == entries[i]);
                assert(short[i].tables@[j]@ == table.0);
            } else {
                assert(entry_tables(last)[j] == table);
            }
        }
    }
}

/// The access that the users file gives to the admin database wins over what the main file says, and
/// is not kept in two places. All else is as the files say.
pub proof fn the_users_file_decides_on_the_admin(
    r: ConfigAndUsers,
    c: Config,
    u: Users,
    config_path: Seq<char>,
    users_path: Seq<char>,
)
    requires
        assembled(r, c, u, config_path, users_path),
    ensures
        u.admin matches Some(admin) ==> r.config.admin == admin,
        u.admin is None ==> r.config.admin == c.admin,
        r.users.admin is None && r.users.users == u.users,
        r.config.databases == c.databases && r.config.general == c.general,
        r.config_path@ == config_path && r.users_path@ == users_path,
{
}

/// A configuration is refused exactly if some user logs in with a cloud token while passwords may be
/// passed through or certificates are not verified. `i` is any user.
pub proof fn cloud_tokens_are_guarded(c: ConfigAndUsers, i: int)
    requires
        0 <= i < c.users.users@.len(),
    ensures
        c.users.users@[i].server_auth != ServerAuth::Password && (c.config.general.passthrough_auth
            != PassthroughAuth::Disabled || c.config.general.tls_verify == TlsVerifyMode::Disabled)
            ==> server_auth_fault(c) is Some,
        server_auth_fault(c) is Some ==> (c.config.general.passthrough_auth
            != PassthroughAuth::Disabled || c.config.general.tls_verify == TlsVerifyMode::Disabled)
            && exists|k: int|
            0 <= k < c.users.users@.len() && (#[trigger] c.users.users@[k]).server_auth
                != ServerAuth::Password,
{
    if c.users.users@[i].server_auth != ServerAuth::Password {
        assert(c.users.users@[i].external());
    }
}

/// A user may use every password that is configured for it, its own first and the verifier last.
pub proof fn all_passwords_can_be_used(u: User, i: int)
    requires
        0 <= i < u.passwords@.len(),
    ensures
        u.all_passwords().contains(PasswordKind::Plain(u.passwords@[i])),
        u.password matches Some(p) ==> u.all_passwords()[0] == PasswordKind::Plain(p),
        u.password_hash matches Some(h) ==> u.all_passwords().last() == PasswordKind::Hashed(h),
        u.all_passwords().len() == u.passwords@.len() + (if u.password is Some {
            1int
        } else {
            0
        }) + (if u.password_hash is Some {
            1int
        } else {
            0
        }),
{
    let n: int = if u.password is Some {
        1
    } else {
        0
    };
    assert(u.all_passwords()[n + i] == PasswordKind::Plain(u.passwords@[i]));
}

/// Mappings are grouped by database, column and table: a group has all mappings that agree in these,
/// and no others. `i` is any mapping.
pub proof fn mappings_are_grouped(items: Seq<ShardedMapping>, like: ShardedMapping, i: int)
    requires
        0 <= i < items.len(),
    ensures
        mapping_key(items[i]) == mapping_key(like) <==> {
            &&& items[i].database@ == like.database@
            &&& items[i].column@ == like.column@
            &&& items[i].table is Some == like.table is Some
            &&& items[i].table is Some ==> items[i].table->Some_0@ == like.table->Some_0@
        },
{
}

/// Tables that are the same on all shards are known for every database that an entry names, and for
/// every configured database unless system catalogs are sharded. `i` is any entry, `k` any database.
pub proof fn databases_with_common_tables(config: Config, name: Seq<char>, i: int, k: int)
    ensures
        0 <= i < config.omnisharded_tables@.len() && config.omnisharded_tables@[i].database@ == name
            ==> has_omnisharded(config, name),
        0 <= k < config.databases@.len() && config.databases@[k].name@ == name
            && config.general.system_catalogs != SystemCatalogsBehavior::Sharded
            ==> has_omnisharded(config, name),
        has_omnisharded(config, name) && config.general.system_catalogs
            == SystemCatalogsBehavior::Sharded ==> exists|j: int|
            0 <= j < config.omnisharded_tables@.len() && (
            #[trigger] config.omnisharded_tables@[j]).database@ == name,
{
    if 0 <= k < config.databases@.len() && config.databases@[k].name@ == name {
        assert(crate::config::settings::has_database(config.databases@, name));
    }
}

} // verus!
