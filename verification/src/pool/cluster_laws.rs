//! What a cluster and the connections of a client owe to requests, told by what can be seen of them.

#[allow(unused_imports)]
use crate::config::database::Role;
#[allow(unused_imports)]
use crate::config::general::{LoadSchema, PoolerMode, PreparedStatements, QueryParserLevel};
#[allow(unused_imports)]
use crate::config::settings::Config;
#[allow(unused_imports)]
use crate::config::users::{PasswordKind, User};
#[allow(unused_imports)]
use crate::net::Parameter;
#[allow(unused_imports)]
use crate::pool::cluster::{
    after_schema, commits_in_two_phases, configured_for, is_read_only, is_schema_ready,
    is_write_only, launched, loads_schema, made_from, needs_router, parses, reloads_schema, Cluster,
    ClusterConfig, ClusterHandle, ClusterShardConfig, SchemaAction, SchemaLoad,
};
#[allow(unused_imports)]
use crate::pool::connection::{
    after_attempt, after_notify, after_parameters, all_plain, before_reload, first_answer, goes_to,
    in_session_mode, last_hashed, lets_go, listens_to, locked_to, lemma_shards_for, rebound, request_plan, shards_for,
    shards_wanted, source_of, timeout_error, with_reset, Binding, ConnectAction, Connection, Guard,
    reloaded, MirrorTarget, NotifyAction, ReloadAction, RequestPlan, Route, RouteShard, Source,
};
#[allow(unused_imports)]
use crate::pool::error::Error as PoolError;
#[allow(unused_imports)]
use crate::pool::laws::writes_go_to_a_primary;
#[allow(unused_imports)]
use crate::pool::lb::find_primary;
#[allow(unused_imports)]
use crate::pool::cluster::{makeable, pools_before};
#[allow(unused_imports)]
use crate::pool::config::PoolConfig;
#[allow(unused_imports)]
use crate::pool::lb::total_timeout;
#[allow(unused_imports)]
use crate::pool::shard::{shard_made, shard_timeout, shard_has_primary, shard_has_replicas, shard_offline, Shard};
#[allow(unused_imports)]
use crate::server::error::Error;
#[allow(unused_imports)]
use crate::server::stats::State;
use vstd::prelude::*;

verus! {

/// Where a query can go to more than one kind of server it has to be routed, however many shards
/// there are: some shard knows a primary, and some shard has a server that is none. Such a cluster
/// parses queries unless it is told not to.
pub proof fn reads_are_told_from_writes(c: Cluster, i: int, a: int, j: int, b: int)
    requires
        0 <= i < c.shards@.len(),
        0 <= a < c.shards@[i].lb.targets@.len() <= usize::MAX,
        c.shards@[i].lb.primary_idx is Some,
        c.shards@[i].lb.targets@[a].role == Role::Primary,
        0 <= j < c.shards@.len(),
        0 <= b < c.shards@[j].lb.targets@.len(),
        c.shards@[j].lb.targets@[b].role != Role::Primary,
    ensures
        needs_router(c),
        c.query_parser == QueryParserLevel::Auto ==> parses(c, false),
{
    let (x, y) = (c.shards@[i], c.shards@[j]);
    writes_go_to_a_primary(x.lb.targets@, x.lb.primary_idx, a);
    assert(shard_has_primary(x));
    assert(shard_has_replicas(y));
    assert(!is_read_only(c));
    assert(!is_write_only(c));
}

/// Where there is only one shard, and all of its servers are primaries or none of them is, a query
/// has only one kind of server to go to, and nothing is routed. With any other number of shards
/// queries are.
pub proof fn single_servers_need_no_router(c: Cluster)
    ensures
        c.shards@.len() != 1 ==> needs_router(c),
        c.shards@.len() == 1 && c.shards@[0].lb.targets@.len() <= usize::MAX && (forall|k: int|
            0 <= k < c.shards@[0].lb.targets@.len() ==> (
            #[trigger] c.shards@[0].lb.targets@[k]).role == Role::Primary) ==> !needs_router(c),
        c.shards@.len() == 1 && c.shards@[0].lb.targets@.len() <= usize::MAX && (forall|k: int|
            0 <= k < c.shards@[0].lb.targets@.len() ==> (
            #[trigger] c.shards@[0].lb.targets@[k]).role != Role::Primary) ==> !needs_router(c),
{
    if c.shards@.len() == 1 && c.shards@[0].lb.targets@.len() <= usize::MAX {
        let s = c.shards@[0];
        let t = s.lb.targets@;
        if forall|k: int| 0 <= k < t.len() ==> (#[trigger] t[k]).role == Role::Primary {
            assert(!shard_has_replicas(s));
            assert(is_write_only(c));
        }
        if forall|k: int| 0 <= k < t.len() ==> (#[trigger] t[k]).role != Role::Primary {
            if t.len() > 0 {
                writes_go_to_a_primary(t, s.lb.primary_idx, 0);
            }
            assert(!shard_has_primary(s)) by {
                if find_primary(t, s.lb.primary_idx) is Some {
                    let i = find_primary(t, s.lb.primary_idx)->Some_0;
                    if t.len() > 0 {
                        assert(t[i as int].role == Role::Primary);
                    }
                }
            }
            assert(is_read_only(c));
        }
    }
}

/// A query is parsed always, never, or only where session control asks for it, as the setting says.
/// Left to itself the cluster parses wherever something depends on it: tenants are kept apart, there
/// is more than one place to go, queries are only tried out, prepared statements are handled in full,
/// or notifications are served.
pub proof fn queries_are_parsed_where_needed(c: Cluster, session_control: bool)
    ensures
        c.query_parser == QueryParserLevel::Off ==> !parses(c, session_control),
        c.query_parser == QueryParserLevel::On ==> parses(c, session_control),
        c.query_parser == QueryParserLevel::SessionControl || c.query_parser
            == QueryParserLevel::SessionControlAndLocks ==> parses(c, session_control)
            == session_control,
        c.query_parser == QueryParserLevel::Auto && (session_control || c.multi_tenant is Some
            || c.dry_run || c.prepared_statements == PreparedStatements::Full
            || c.pub_sub_channel_size > 0 || c.shards@.len() > 1) ==> parses(c, session_control),
        c.query_parser == QueryParserLevel::Auto && parses(c, session_control) ==> session_control
            || c.multi_tenant is Some || c.dry_run || c.prepared_statements
            == PreparedStatements::Full || c.pub_sub_channel_size > 0 || needs_router(c),
{
}

/// The schema is loaded where the setting says so; left to itself the cluster loads it if there are
/// several shards or tenants are kept apart. It is loaded again after a change only if it is loaded
/// at all, and nobody waits for a schema that is not.
pub proof fn schemas_are_loaded_where_needed(c: Cluster, i: int)
    requires
        0 <= i < c.shards@.len(),
    ensures
        loads_schema(c) <==> c.load_schema == LoadSchema::On || c.load_schema == LoadSchema::Auto && (
        c.shards@.len() >= 2 || c.multi_tenant is Some),
        reloads_schema(c) <==> c.reload_schema_on_ddl && (c.load_schema == LoadSchema::On
            || c.load_schema == LoadSchema::Auto && (c.shards@.len() >= 2 || c.multi_tenant
            is Some)),
        c.load_schema == LoadSchema::Off ==> is_schema_ready(c),
        c.load_schema == LoadSchema::On && !c.shards@[i].schema_ready ==> !is_schema_ready(c),
        (forall|k: int| 0 <= k < c.shards@.len() ==> (#[trigger] c.shards@[k]).schema_ready)
            ==> is_schema_ready(c),
{
    let _ = c.shards@[i].schema_ready;
}

/// A schema that could not be loaded is tried again as long as the shard is online, after a tenth of
/// a second; one that was loaded is announced, once.
pub proof fn failed_schemas_are_tried_again(outcome: SchemaLoad, online: bool)
    ensures
        outcome == SchemaLoad::Loaded <==> after_schema(outcome, online) == SchemaAction::Announce,
        after_schema(outcome, online) matches SchemaAction::RetryAfter(d) ==> outcome
            == SchemaLoad::Failed && online && d.nanos == 100_000_000,
        outcome == SchemaLoad::Failed && online ==> after_schema(outcome, online) is RetryAfter,
        outcome == SchemaLoad::Failed && !online ==> after_schema(outcome, online)
            == SchemaAction::Abandon,
        outcome == SchemaLoad::AlreadyLoaded ==> after_schema(outcome, online)
            == SchemaAction::Finish,
{
}

/// What is set for a user counts for the user's cluster, and the general setting where nothing is.
/// Two-phase commit takes more than one shard, and statements outside of a transaction use it only
/// where transactions do.
pub proof fn user_settings_come_first(
    config: Config,
    user: User,
    shards: Seq<ClusterShardConfig>,
    settings: ClusterConfig,
    c: Cluster,
)
    requires
        configured_for(config, user, shards, settings),
        made_from(settings, c),
        settings.shards@ == shards,
    ensures
        c.identifier.user@ == user.name@ && c.identifier.database@ == user.database@,
        user.cross_shard_disabled matches Some(b) ==> c.cross_shard_disabled == b,
        user.cross_shard_disabled is None ==> c.cross_shard_disabled
            == config.general.cross_shard_disabled,
        c.two_phase_commit ==> shards.len() >= 2,
        shards.len() >= 2 ==> (user.two_phase_commit matches Some(b) ==> c.two_phase_commit == b),
        shards.len() >= 2 && user.two_phase_commit is None ==> c.two_phase_commit
            == config.general.two_phase_commit,
        commits_in_two_phases(c) ==> c.two_phase_commit && shards.len() >= 2,
        shards.len() >= 2 && c.two_phase_commit ==> (user.two_phase_commit_auto matches Some(b)
            ==> commits_in_two_phases(c) == b),
        user.two_phase_commit_auto is None && config.general.two_phase_commit_auto is None
            ==> !commits_in_two_phases(c),
        shards.len() >= 2 && c.two_phase_commit && user.two_phase_commit_auto is None
            && config.general.two_phase_commit_auto == Some(true) ==> commits_in_two_phases(c),
        shards.len() == 0 ==> (user.pooler_mode matches Some(mode) ==> c.pooler_mode == mode),
        shards.len() == 0 && user.pooler_mode is None ==> c.pooler_mode
            == config.general.pooler_mode,
        shards.len() > 0 && shards[0].primary is Some ==> c.pooler_mode
            == shards[0].primary->Some_0.config.pooler_mode,
        shards.len() > 0 && shards[0].primary is None && shards[0].replicas@.len() > 0
            ==> c.pooler_mode == shards[0].replicas@[0].config.pooler_mode,
        c.schema_admin == user.schema_admin && c.passwords@ == user.all_passwords(),
        c.query_parser == config.general.query_parser && c.dry_run == config.general.dry_run
            && c.load_schema == config.general.load_schema && c.multi_tenant == config.multi_tenant
            && c.rw_split == config.general.read_write_split && c.rw_strategy
            == config.general.read_write_strategy,
        c.resharding_copy_retry_min_delay.nanos == config.general.resharding_copy_retry_min_delay
            * 1_000_000,
        !c.online,
{
}

/// Launching a shard brings all of its pools online and changes nothing else; where no schema is
/// loaded nobody waits for it.
pub proof fn launching_brings_pools_online(before: Shard, after: Shard, loads: bool, i: int)
    requires
        launched(before, after, loads),
        0 <= i < before.lb.targets@.len(),
    ensures
        after.lb.targets@.len() == before.lb.targets@.len(),
        after.lb.targets@[i].pool.inner.online,
        after.lb.targets@[i].pool.inner.idle_connections
            == before.lb.targets@[i].pool.inner.idle_connections,
        after.lb.targets@[i].role == before.lb.targets@[i].role && after.lb.targets@[i].ban
            == before.lb.targets@[i].ban,
        !loads ==> after.schema_ready,
        loads ==> after.schema_ready == before.schema_ready,
        after.lb.primary_idx == before.lb.primary_idx,
{
}

/// A shard that is shut down has no pool that serves clients, holds idle connections or lets clients
/// wait.
pub proof fn shutting_down_empties_pools(before: Shard, after: Shard, i: int)
    requires
        shard_offline(before, after),
        0 <= i < before.lb.targets@.len(),
    ensures
        after.lb.targets@.len() == before.lb.targets@.len(),
        !after.lb.targets@[i].pool.inner.online,
        after.lb.targets@[i].pool.inner.idle_connections@.len() == 0,
        after.lb.targets@[i].pool.inner.waiting@.len() == 0,
        after.lb.targets@[i].pool.inner.taken == before.lb.targets@[i].pool.inner.taken,
        after.lb.targets@[i].role == before.lb.targets@[i].role,
{
    let _ = after.lb.targets@[i];
}

/// Whatever writes goes to the primary, and only a read that asks for any server or for the primary
/// first goes elsewhere than to the servers for reads.
pub proof fn writes_go_to_the_primary_only(route: Route)
    ensures
        source_of(route) == Source::Primary <==> !route.read,
        source_of(route) == Source::AnyRead <==> route.read && route.any_target,
        source_of(route) == Source::PreferredRead <==> route.read && !route.any_target
            && route.prefer_primary,
        source_of(route) == Source::Replica <==> route.read && !route.any_target
            && !route.prefer_primary,
        timeout_error(source_of(route)) == Some(PoolError::CheckoutTimeout) <==> !route.read,
        timeout_error(source_of(route)) == Some(PoolError::ReplicaCheckoutTimeout) <==> route.read
            && !route.any_target && !route.prefer_primary,
{
}

/// The shards that a connection is needed of are those that the request goes to and that the cluster
/// has: the one, all of those in a list, or all. A request for one shard that does not exist is
/// refused.
pub proof fn connections_match_the_route(
    cluster: Option<ClusterHandle>,
    shard: RouteShard,
    r: Result<Vec<usize>, Error>,
    i: int,
)
    requires
        shards_wanted(cluster, shard, r),
        0 <= i <= usize::MAX,
    ensures
        cluster is None ==> (r matches Err(e) && e == Error::ClusterNotConnected),
        r matches Ok(list) ==> cluster is Some && list@.no_duplicates() && (list@.contains(
            i as usize,
        ) <==> i < cluster->Some_0.shards && match shard {
            RouteShard::Direct(n) => n == i,
            RouteShard::Multi(numbers) => numbers@.contains(i as usize),
            RouteShard::All => true,
        }),
        cluster is Some ==> (r is Err <==> (shard matches RouteShard::Direct(n) && n
            >= cluster->Some_0.shards)),
        r matches Err(e) ==> cluster is None || (shard matches RouteShard::Direct(n) && e
            == Error::Pool(PoolError::NoShard(n))),
{
    if cluster is Some && r is Ok {
        let n = cluster->Some_0.shards as int;
        lemma_shards_for(shard, n, i);
        match shard {
            RouteShard::Direct(d) => {
                assert(seq![d][0] == d);
                assert(seq![d].contains(d));
            },
            RouteShard::Multi(numbers) => {
                if numbers@.contains(i as usize) {
                    let k = choose|k: int| 0 <= k < numbers@.len() && numbers@[k] == i as usize;
                    assert(numbers@[k] == i);
                }
                if goes_to(shard, i) {
                    let k = choose|k: int| 0 <= k < numbers@.len() && #[trigger] numbers@[k] == i;
                    assert(numbers@[k] == i as usize);
                }
            },
            RouteShard::All => {},
        }
    }
}

/// A client is bound to the connections that were checked out for its request, and to no others: to
/// one server for one shard, else to a server of each shard. In session mode they are reset when the
/// client is done. The admin database keeps its client.
pub proof fn clients_are_bound_to_their_route(
    before: Binding,
    servers: Seq<Guard>,
    session: bool,
    direct: bool,
    after: Binding,
    returned: Seq<Guard>,
    i: int,
)
    requires
        rebound(before, with_reset(servers, session), direct, after, returned),
        direct ==> servers.len() == 1,
        0 <= i < servers.len(),
    ensures
        before is Admin && direct ==> after == before && returned.len() == servers.len(),
        !(before is Admin && direct) ==> {
            &&& direct <==> after is Direct
            &&& !direct <==> after is MultiShard
            &&& after.guards().len() == servers.len()
            &&& after.guards()[i].server == servers[i].server && after.guards()[i].pool
                == servers[i].pool
            &&& session ==> after.guards()[i].reset
            &&& !session ==> after.guards()[i].reset == servers[i].reset
            &&& returned == before.guards()
        },
{
}

/// Pools that were shut down by a change of the configuration are worth one more attempt, and
/// nothing else is: any other error, and any error of the second attempt, is final. A connection
/// that was just checked out has to be idle.
pub proof fn one_more_attempt_at_most(binding: Binding, attempt: Result<(), Error>, i: int)
    requires
        0 <= i < binding.guards().len(),
    ensures
        attempt is Err ==> after_attempt(binding, attempt, true) == ConnectAction::Fail(
            attempt->Err_0,
        ),
        after_attempt(binding, attempt, false) is Reload <==> attempt == Err::<(), Error>(
            Error::Pool(PoolError::Offline),
        ) || attempt == Err::<(), Error>(Error::Pool(PoolError::AllReplicasDown)) || attempt
            == Err::<(), Error>(Error::Pool(PoolError::PreferredReadUnavailable)),
        after_attempt(binding, attempt, false) matches ConnectAction::Reload { wait } ==> (wait
            <==> attempt != Err::<(), Error>(Error::Pool(PoolError::PreferredReadUnavailable))),
        attempt is Ok && binding.guards()[i].server.stats.state != State::Idle ==> after_attempt(
            binding,
            attempt,
            false,
        ) == ConnectAction::Fail(Error::NotInSync),
        attempt is Ok && (forall|k: int|
            0 <= k < binding.guards().len() ==> (
            #[trigger] binding.guards()[k]).server.stats.state == State::Idle) ==> after_attempt(
            binding,
            attempt,
            false,
        ) == ConnectAction::Finish,
        attempt is Ok ==> after_attempt(binding, attempt, true) == ConnectAction::Finish,
        attempt is Err && !(after_attempt(binding, attempt, false) is Reload) ==> after_attempt(
            binding,
            attempt,
            false,
        ) == ConnectAction::Fail(attempt->Err_0),
{
    let _ = binding.guards()[i];
}

/// Asking for settings and notifying a channel are tried once more where the pools were offline, and
/// fail for good otherwise.
pub proof fn asking_and_notifying_are_tried_once_more(
    outcome: Result<(), Error>,
    notified: Result<(), PoolError>,
    retried: bool,
)
    ensures
        outcome is Ok <==> after_parameters(outcome, retried) == ConnectAction::Finish,
        after_parameters(outcome, retried) matches ConnectAction::Reload { wait } ==> wait
            && !retried,
        after_parameters(outcome, retried) is Reload <==> !retried && outcome == Err::<(), Error>(
            Error::Pool(PoolError::AllReplicasDown),
        ),
        after_parameters(outcome, retried) matches ConnectAction::Fail(e) ==> outcome == Err::<
            (),
            Error,
        >(e),
        notified is Ok <==> after_notify(notified, retried) == NotifyAction::Finish,
        after_notify(notified, retried) matches NotifyAction::Reload { again } ==> again
            == !retried,
        after_notify(notified, retried) is Reload <==> notified == Err::<(), PoolError>(
            PoolError::Offline,
        ),
        after_notify(notified, retried) matches NotifyAction::Fail(e) ==> notified is Err && e
            == Error::Pool(notified->Err_0),
{
}

/// A channel belongs to one shard: a client can listen only where the request goes to exactly one,
/// and nothing is done for one that does not exist.
pub proof fn channels_belong_to_one_shard(
    cluster: Option<ClusterHandle>,
    shard: RouteShard,
    r: Result<Option<usize>, Error>,
)
    requires
        listens_to(cluster, shard, r),
    ensures
        r matches Ok(Some(n)) ==> shard == RouteShard::Direct(n) && cluster is Some && n
            < cluster->Some_0.shards,
        r matches Ok(None) ==> cluster is Some && (shard matches RouteShard::Direct(n) && n
            >= cluster->Some_0.shards),
        !(shard is Direct) ==> (r matches Err(e) && e == Error::ProtocolOutOfSync),
        shard is Direct && cluster is None ==> (r matches Err(e) && e == Error::ClusterNotConnected),
        shard is Direct && cluster is Some ==> r is Ok,
{
}

/// Rows that are copied go each to its shard, a statement that was prepared before is prepared again
/// where it is needed, and rows that cannot be read are an error.
pub proof fn copied_rows_go_to_their_shards(
    copy: bool,
    streaming: bool,
    rows: Result<usize, String>,
    prepared: bool,
    needs_preparing: bool,
    r: Result<RequestPlan, Error>,
)
    requires
        request_plan(copy, streaming, rows, prepared, needs_preparing, r),
    ensures
        r == Ok::<RequestPlan, Error>(RequestPlan::CopyRows) <==> copy && !streaming && (
        rows matches Ok(n) && n > 0),
        r is Err <==> copy && !streaming && rows is Err,
        r == Ok::<RequestPlan, Error>(RequestPlan::PrepareFirst) <==> (!copy || streaming)
            && prepared && needs_preparing,
{
}

/// Servers go back to their pools once nothing more is expected of any of them, they are in no
/// transaction, and the client has not locked them.
pub proof fn busy_servers_stay(c: Connection, i: int)
    requires
        0 <= i < c.binding.guards().len(),
    ensures
        lets_go(c) ==> {
            let s = *c.binding.guards()[i].server;
            &&& !c.locked
            &&& !s.in_transaction && !s.statement_executed && s.prepared_statements.done
        },
        !c.locked && (forall|k: int|
            0 <= k < c.binding.guards().len() ==> {
                let s = *(#[trigger] c.binding.guards()[k]).server;
                !s.in_transaction && !s.statement_executed && s.prepared_statements.done
            }) ==> lets_go(c),
{
    let _ = c.binding.guards()[i];
}

/// A user that was forgotten is added again before the cluster is fetched, with all passwords that
/// the cluster knew; otherwise the cluster is just fetched, and the admin database has none.
pub proof fn forgotten_users_are_added_again(
    c: Connection,
    passthrough: bool,
    known: bool,
    r: ReloadAction,
    i: int,
)
    requires
        before_reload(c, passthrough, known, r),
    ensures
        r is Finish <==> c.binding is Admin,
        r is AddUser <==> !(c.binding is Admin) && c.cluster is Some && passthrough && !known,
        r matches ReloadAction::AddUser(user) ==> {
            let passwords = c.cluster->Some_0.passwords@;
            &&& user.name == c.user && user.database == c.database && user.password is None
            &&& 0 <= i < passwords.len() ==> (passwords[i] matches PasswordKind::Plain(p)
                ==> user.passwords@.contains(p))
            &&& 0 <= i < passwords.len() && passwords[i] is Hashed ==> user.password_hash is Some
            &&& user.password_hash matches Some(h) ==> passwords.contains(PasswordKind::Hashed(h))
        },
{
    if r is AddUser {
        lemma_passwords(c.cluster->Some_0.passwords@, i);
    }
}

proof fn lemma_passwords(passwords: Seq<PasswordKind>, i: int)
    ensures
        0 <= i < passwords.len() ==> (passwords[i] matches PasswordKind::Plain(p) ==> all_plain(
            passwords,
        ).contains(p)),
        0 <= i < passwords.len() && passwords[i] is Hashed ==> last_hashed(passwords) is Some,
        last_hashed(passwords) matches Some(h) ==> passwords.contains(PasswordKind::Hashed(h)),
    decreases passwords.len(),
{
    if passwords.len() > 0 {
        let short = passwords.drop_last();
        let n = passwords.len() - 1;
        lemma_passwords(short, i);
        if 0 <= i < passwords.len() && passwords[i] is Plain {
            let p = passwords[i]->Plain_0;
            if i < n {
                assert(short[i] == passwords[i]);
                let k = choose|k: int| 0 <= k < all_plain(short).len() && all_plain(short)[k] == p;
                assert(all_plain(passwords)[k] == p);
            } else {
                let all = all_plain(passwords);
                assert(all[all.len() - 1] == p);
            }
        }
        if 0 <= i < n {
            assert(short[i] == passwords[i]);
        }
        if last_hashed(passwords) is Some {
            let h = last_hashed(passwords)->Some_0;
            if passwords[n] is Hashed {
                assert(passwords[n] == PasswordKind::Hashed(h));
            } else {
                let k = choose|k: int|
                    0 <= k < short.len() && short[k] == PasswordKind::Hashed(h);
                assert(passwords[k] == short[k]);
            }
        }
    }
}

/// The settings that a client is told are those of the first shard that answered; it is told of none
/// only if no shard did. `i` is any shard.
pub proof fn the_first_answer_counts(answers: Seq<Option<Vec<Parameter>>>, i: int)
    requires
        0 <= i < answers.len(),
    ensures
        answers[i] is Some ==> first_answer(answers) is Some,
        first_answer(answers) matches Some(params) ==> exists|k: int|
            {
                &&& 0 <= k < answers.len()
                &&& (#[trigger] answers[k]) is Some && answers[k]->Some_0@ == params
                &&& answers[i] is Some ==> k <= i
            },
    decreases answers.len(),
{
    let rest = answers.drop_first();
    if answers[0] is None {
        if rest.len() > 0 {
            let j = if i > 0 {
                i - 1
            } else {
                0
            };
            the_first_answer_counts(rest, j);
            assert(rest[j] == answers[j + 1]);
            if first_answer(answers) is Some {
                let params = first_answer(answers)->Some_0;
                let k = choose|k: int|
                    {
                        &&& 0 <= k < rest.len()
                        &&& (#[trigger] rest[k]) is Some && rest[k]->Some_0@ == params
                        &&& rest[j] is Some ==> k <= j
                    };
                assert(answers[k + 1] == rest[k]);
            }
        }
    } else {
        assert(answers[0] is Some);
    }
}

/// What a client does with servers that are its own has to be cleaned up after it: locking servers
/// marks all of their sessions, and releasing them takes no mark away. Nothing else about them
/// changes.
pub proof fn locked_sessions_are_cleaned_up(
    before: Connection,
    after: Connection,
    lock: bool,
    i: int,
)
    requires
        locked_to(before, after, lock),
        0 <= i < before.binding.guards().len(),
    ensures
        after.locked == lock,
        after.binding.guards().len() == before.binding.guards().len(),
        lock ==> after.binding.guards()[i].server.dirty,
        !lock ==> after.binding == before.binding,
        after.binding.guards()[i].server.id == before.binding.guards()[i].server.id,
        after.binding.guards()[i].server.stats == before.binding.guards()[i].server.stats,
        after.binding.guards()[i].pool == before.binding.guards()[i].pool,
        after.user == before.user && after.database == before.database && after.cluster
            == before.cluster,
{
}

/// A client without a server has to be connected first; the admin database needs none.
pub proof fn clients_without_servers_are_connected(c: Connection)
    ensures
        c.unbound() <==> c.binding.guards().len() == 0 && !(c.binding is Admin),
        in_session_mode(c.cluster) <==> c.cluster is None || c.cluster->Some_0.pooler_mode
            == PoolerMode::Session,
{
}

proof fn lemma_pools_up_to(shards: Seq<ClusterShardConfig>, a: int, b: int)
    requires
        0 <= a < b,
    ensures
        pools_before(shards, a) + shards[a].replicas@.len() + (if shards[a].primary is Some {
            1int
        } else {
            0
        }) <= pools_before(shards, b),
    decreases b - a,
{
    if a + 1 < b {
        lemma_pools_up_to(shards, a, b - 1);
    }
}

/// Pools of different shards have different numbers: every number of an earlier shard is smaller than
/// every number of a later one.
pub proof fn pools_of_shards_differ(
    shards: Seq<ClusterShardConfig>,
    first_id: int,
    a: int,
    b: int,
    s: Shard,
    t: Shard,
    i: int,
    j: int,
)
    requires
        0 <= a < b < shards.len(),
        shard_made(
            s,
            a,
            shards[a].primary,
            shards[a].replicas@,
            first_id + pools_before(shards, a),
        ),
        shard_made(
            t,
            b,
            shards[b].primary,
            shards[b].replicas@,
            first_id + pools_before(shards, b),
        ),
        0 <= i < s.lb.targets@.len(),
        0 <= j < t.lb.targets@.len(),
    ensures
        s.lb.targets@[i].pool.id < t.lb.targets@[j].pool.id,
        s.number == a && t.number == b,
{
    lemma_pools_up_to(shards, a, b);
    if i < shards[a].replicas@.len() {
        let _ = s.lb.targets@[i];
    }
    if j < shards[b].replicas@.len() {
        let _ = t.lb.targets@[j];
    }
}

/// Pools of one shard have different numbers, too, and each is for the server that is configured in its
/// place; the primary comes last, is the only one that is told to be it, and is known from the start.
pub proof fn pools_of_a_shard_differ(
    s: Shard,
    number: int,
    primary: Option<PoolConfig>,
    replicas: Seq<PoolConfig>,
    first_id: int,
    i: int,
    j: int,
)
    requires
        shard_made(s, number, primary, replicas, first_id),
        0 <= i < j < s.lb.targets@.len(),
    ensures
        s.lb.targets@[i].pool.id != s.lb.targets@[j].pool.id,
        i < replicas.len(),
        s.lb.targets@[i].pool.config == replicas[i].config,
        s.lb.targets@[i].role == replicas[i].address.configured_role,
        primary is Some ==> s.lb.targets@.last().role == Role::Primary && s.lb.primary_idx == Some(
            replicas.len() as usize,
        ) && s.lb.targets@.last().pool.config == primary->Some_0.config,
        primary is None ==> s.lb.primary_idx is None,
        !s.lb.targets@[i].pool.inner.online && s.lb.targets@[i].ban.entry is None,
{
    let _ = s.lb.targets@[i];
    if j < replicas.len() {
        let _ = s.lb.targets@[j];
    }
}

/// A client waits for a shard as long as it may wait for each of its pools, one after the other.
pub proof fn waits_add_up(primary: Option<PoolConfig>, replicas: Seq<PoolConfig>, more: PoolConfig)
    ensures
        shard_timeout(primary, replicas.push(more)) == shard_timeout(primary, replicas)
            + more.config.checkout_timeout.nanos,
        shard_timeout(Some(more), replicas) == shard_timeout(None, replicas)
            + more.config.checkout_timeout.nanos,
        shard_timeout(None, Seq::<PoolConfig>::empty()) == 0,
{
    assert(replicas.push(more).drop_last() == replicas);
}

/// A client goes on with the cluster that was looked up, keeps the servers that it has, and is left
/// with what it had if there is no cluster; the admin database has none to look up.
pub proof fn clients_go_on_with_the_new_cluster(
    before: Connection,
    after: Connection,
    cluster: Result<ClusterHandle, Error>,
    mirrors: Result<Vec<MirrorTarget>, Error>,
    r: Result<(), Error>,
)
    requires
        reloaded(before, after, cluster, mirrors, r),
    ensures
        after.binding == before.binding && after.user == before.user && after.database
            == before.database && after.locked == before.locked,
        before.binding is Admin ==> r is Ok && after.cluster == before.cluster,
        !(before.binding is Admin) && cluster is Ok ==> after.cluster == Some(cluster->Ok_0),
        !(before.binding is Admin) && cluster is Ok && mirrors is Ok ==> r is Ok && after.mirrors
            == mirrors->Ok_0,
        cluster is Err ==> after == before,
        !(before.binding is Admin) ==> (r is Err <==> cluster is Err || mirrors is Err),
{
}

} // verus!
