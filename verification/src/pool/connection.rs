//! Server connections of one client.

use crate::config::general::{MirrorConfig, PoolerMode};
use crate::config::users::{PasswordKind, User};
use crate::net::{clone_all, Parameter};
use crate::pool::cluster::ClusterHandle;
use crate::pool::config::Address;
use crate::pool::error::Error as PoolError;
use crate::server::connection::Server;
use crate::server::error::Error;
use crate::server::stats::State;
use crate::text::owned;
use vstd::prelude::*;

verus! {

/// A connection that was checked out of a pool.
#[derive(Debug)]
pub struct Guard {
    /// The connection.
    pub server: Box<Server>,
    /// The pool that it goes back to.
    pub pool: u64,
    /// The session is reset before the connection goes back.
    pub reset: bool,
}

/// Shards that a request goes to.
#[derive(Debug)]
pub enum RouteShard {
    /// One shard.
    Direct(usize),
    /// Some shards.
    Multi(Vec<usize>),
    /// All shards.
    All,
}

/// Where a request goes.
#[derive(Debug)]
pub struct Route {
    /// Which shards.
    pub shard: RouteShard,
    /// The request only reads.
    pub read: bool,
    /// Any server will do for a read.
    pub any_target: bool,
    /// A read should go to the primary, if that can be had.
    pub prefer_primary: bool,
}

/// Which server of a shard a request goes to.
#[derive(Clone, Copy, Debug, PartialEq, Eq, Structural)]
pub enum Source {
    /// Any server.
    AnyRead,
    /// The primary, or else a replica.
    PreferredRead,
    /// A server for reads.
    Replica,
    /// The primary.
    Primary,
}

impl Source {
    /// The error for a client that waited too long for one of these servers, where the wait as a
    /// whole is limited.
    pub fn timed_out(&self) -> (r: Option<PoolError>)
        ensures
            r == timeout_error(*self),
    {
        match self {
            Source::Replica => Some(PoolError::ReplicaCheckoutTimeout),
            Source::Primary => Some(PoolError::CheckoutTimeout),
            _ => None,
        }
    }
}

/// Which server of a shard a request on this route goes to.
pub open spec fn source_of(route: Route) -> Source {
    if !route.read {
        Source::Primary
    } else if route.any_target {
        Source::AnyRead
    } else if route.prefer_primary {
        Source::PreferredRead
    } else {
        Source::Replica
    }
}

/// The error for a client that waited too long for one of these servers.
pub open spec fn timeout_error(source: Source) -> Option<PoolError> {
    match source {
        Source::Replica => Some(PoolError::ReplicaCheckoutTimeout),
        Source::Primary => Some(PoolError::CheckoutTimeout),
        _ => None,
    }
}

impl Route {
    /// Which server of a shard the request goes to.
    pub fn source(&self) -> (r: Source)
        ensures
            r == source_of(*self),
    {
        if self.read {
            if self.any_target {
                Source::AnyRead
            } else if self.prefer_primary {
                Source::PreferredRead
            } else {
                Source::Replica
            }
        } else {
            Source::Primary
        }
    }
}

/// The servers that a client is connected to.
#[derive(Debug)]
pub enum Binding {
    /// One server, or none yet.
    Direct(Option<Guard>),
    /// The admin database, with this many messages that the client has not read.
    Admin(usize),
    /// Servers of several shards, with the numbers of the shards.
    MultiShard(Vec<Guard>, Vec<usize>),
}

impl Binding {
    /// The connections.
    pub open spec fn guards(&self) -> Seq<Guard> {
        match self {
            Binding::Direct(Some(guard)) => seq![*guard],
            Binding::Direct(None) => Seq::empty(),
            Binding::Admin(_) => Seq::empty(),
            Binding::MultiShard(guards, _) => guards@,
        }
    }

    /// Every connection is in this state.
    pub fn state_check(&self, state: State) -> (r: bool)
        ensures
            r <==> forall|i: int|
                0 <= i < self.guards().len() ==> (
                #[trigger] self.guards()[i]).server.stats.state == state,
    {
        match self {
            Binding::Direct(Some(guard)) => {
                assert(self.guards()[0] == *guard);
                guard.server.stats.state == state
            },
            Binding::Direct(None) => true,
            Binding::Admin(_) => true,
            Binding::MultiShard(guards, _) => {
                for i in 0..guards.len()
                    invariant
                        self.guards() == guards@,
                        forall|k: int|
                            0 <= k < i ==> (#[trigger] guards@[k]).server.stats.state == state,
                {
                    if guards[i].server.stats.state != state {
                        assert(self.guards()[i as int].server.stats.state != state);
                        return false;
                    }
                }
                true
            },
        }
    }

    /// Nothing more is expected of any server.
    pub open spec fn finished(&self) -> bool {
        match self {
            Binding::Admin(unread) => *unread == 0,
            _ => forall|i: int|
                0 <= i < self.guards().len() ==> server_done(*(
                #[trigger] self.guards()[i]).server),
        }
    }

    /// Nothing more is expected of any server.
    pub fn done(&self) -> (r: bool)
        ensures
            r == self.finished(),
    {
        match self {
            Binding::Direct(Some(guard)) => {
                assert(self.guards()[0] == *guard);
                guard.server.done()
            },
            Binding::Direct(None) => true,
            Binding::Admin(unread) => *unread == 0,
            Binding::MultiShard(guards, _) => {
                for i in 0..guards.len()
                    invariant
                        self.guards() == guards@,
                        self !is Admin,
                        forall|k: int|
                            0 <= k < i ==> server_done(*(#[trigger] guards@[k]).server),
                {
                    if !guards[i].server.done() {
                        assert(!server_done(*self.guards()[i as int].server));
                        return false;
                    }
                }
                true
            },
        }
    }

    /// Every session has to be cleaned before its connection goes to another client.
    pub fn dirty(&mut self)
        ensures
            marked_dirty(*old(self), *final(self)),
    {
        match self {
            Binding::Direct(Some(guard)) => {
                guard.server.mark_dirty(true);
            },
            Binding::Direct(None) => {},
            Binding::Admin(_) => {},
            Binding::MultiShard(guards, _) => {
                mark_all_dirty(guards);
            },
        }
    }
}

/// All sessions are dirty.
fn mark_all_dirty(guards: &mut Vec<Guard>)
    ensures
        final(guards)@ == all_dirty(old(guards)@),
{
    let ghost before = guards@;
    let mut i: usize = 0;
    while i < guards.len()
        invariant
            before == old(guards)@,
            guards@.len() == before.len(),
            i <= guards@.len(),
            forall|k: int| 0 <= k < i ==> #[trigger] guards@[k] == dirtied(before[k]),
            forall|k: int| i <= k < guards@.len() ==> #[trigger] guards@[k] == before[k],
        decreases guards@.len() - i,
    {
        guards[i].server.mark_dirty(true);
        i = i + 1;
    }
}

/// The connection with a dirty session.
pub open spec fn dirtied(g: Guard) -> Guard {
    Guard { server: Box::new(Server { dirty: true, ..*g.server }), ..g }
}

/// The connections with dirty sessions.
pub open spec fn all_dirty(guards: Seq<Guard>) -> Seq<Guard> {
    Seq::new(guards.len(), |i: int| dirtied(guards[i]))
}

/// `after` is `before` with dirty sessions.
pub open spec fn marked_dirty(before: Binding, after: Binding) -> bool {
    match before {
        Binding::Direct(Some(guard)) => after == Binding::Direct(Some(dirtied(guard))),
        Binding::Direct(None) => after == before,
        Binding::Admin(_) => after == before,
        Binding::MultiShard(guards, numbers) => {
            after matches Binding::MultiShard(g, n) && n == numbers && g@ == all_dirty(guards@)
        },
    }
}

/// Nothing more is expected of this server.
pub open spec fn server_done(s: Server) -> bool {
    s.prepared_statements.done && !s.in_transaction && !s.statement_executed
}

/// A database that gets a copy of the requests.
#[derive(Debug)]
pub struct MirrorTarget {
    /// Name of the database.
    pub destination: String,
    /// What is mirrored.
    pub config: MirrorConfig,
}

/// Server connections of one client.
#[derive(Debug)]
pub struct Connection {
    /// Name of the user.
    pub user: String,
    /// Name of the database.
    pub database: String,
    /// The servers that the client is connected to.
    pub binding: Binding,
    /// The cluster that the servers are part of.
    pub cluster: Option<ClusterHandle>,
    /// Databases that get a copy of the requests.
    pub mirrors: Vec<MirrorTarget>,
    /// The servers stay with the client until it is done.
    pub locked: bool,
}

/// What to do after an attempt to connect.
#[derive(Debug)]
pub enum ConnectAction {
    /// The client is connected.
    Finish,
    /// Get the cluster again and try once more.
    Reload {
        /// Wait for a change of the configuration to be over first.
        wait: bool,
    },
    /// Give up.
    Fail(Error),
}

/// What to do before the cluster is fetched again.
#[derive(Debug)]
pub enum ReloadAction {
    /// Nothing at all: there is no cluster.
    Finish,
    /// Add the user, who was forgotten; then fetch the cluster.
    AddUser(User),
    /// Fetch the cluster.
    Fetch,
}

/// What to do after an attempt to notify a channel.
#[derive(Debug)]
pub enum NotifyAction {
    /// The notification was taken.
    Finish,
    /// Get the cluster again, and then try again if told to.
    Reload {
        /// Try again.
        again: bool,
    },
    /// Give up.
    Fail(Error),
}

/// What is sent to the servers for a request.
#[derive(Clone, Copy, Debug, PartialEq, Eq, Structural)]
pub enum RequestPlan {
    /// The rows, each to its shard, then what else is in the request.
    CopyRows,
    /// The last statement that was prepared, without handing on the answer, then the request.
    PrepareFirst,
    /// The request.
    Plain,
}

/// The number is one of these.
pub open spec fn among(numbers: Seq<usize>, i: int) -> bool {
    exists|k: int| 0 <= k < numbers.len() && #[trigger] numbers[k] == i
}

/// A request can go to this shard.
pub open spec fn goes_to(shard: RouteShard, i: int) -> bool {
    match shard {
        RouteShard::Direct(n) => n == i,
        RouteShard::Multi(numbers) => among(numbers@, i),
        RouteShard::All => true,
    }
}

/// The shards among the first `n` that a request goes to.
pub open spec fn shards_for(shard: RouteShard, n: int) -> Seq<usize>
    decreases n,
{
    if n <= 0 {
        Seq::empty()
    } else if goes_to(shard, n - 1) {
        shards_for(shard, n - 1).push((n - 1) as usize)
    } else {
        shards_for(shard, n - 1)
    }
}

/// The shards of the cluster that a connection is needed of.
pub open spec fn shards_wanted(
    cluster: Option<ClusterHandle>,
    shard: RouteShard,
    r: Result<Vec<usize>, Error>,
) -> bool {
    match cluster {
        None => r matches Err(e) && e == Error::ClusterNotConnected,
        Some(cluster) => match shard {
            RouteShard::Direct(n) => if n < cluster.shards {
                r matches Ok(list) && list@ == seq![n]
            } else {
                r matches Err(e) && e == Error::Pool(PoolError::NoShard(n))
            },
            _ => r matches Ok(list) && list@ == shards_for(shard, cluster.shards as int),
        },
    }
}

/// The shard whose notifications a client can listen to or send.
pub open spec fn listens_to(
    cluster: Option<ClusterHandle>,
    shard: RouteShard,
    r: Result<Option<usize>, Error>,
) -> bool {
    match shard {
        RouteShard::Direct(n) => match cluster {
            None => r matches Err(e) && e == Error::ClusterNotConnected,
            Some(cluster) => r matches Ok(s) && s == if n < cluster.shards {
                Some(n)
            } else {
                None
            },
        },
        _ => r matches Err(e) && e == Error::ProtocolOutOfSync,
    }
}

/// The connections, to be reset if `reset` is set.
pub open spec fn with_reset(guards: Seq<Guard>, reset: bool) -> Seq<Guard> {
    Seq::new(guards.len(), |i: int| Guard { reset: guards[i].reset || reset, ..guards[i] })
}

/// The client is bound to the fresh connections, and the connections that it is not bound to any
/// longer are given back. The admin database does not let go of its client.
pub open spec fn rebound(
    before: Binding,
    fresh: Seq<Guard>,
    direct: bool,
    after: Binding,
    returned: Seq<Guard>,
) -> bool {
    if !direct {
        after is MultiShard && after.guards() == fresh && returned == before.guards()
    } else if before is Admin {
        after == before && returned == fresh
    } else {
        after == Binding::Direct(Some(fresh[0])) && returned == before.guards()
    }
}

/// The last verifier among these passwords.
pub open spec fn last_hashed(passwords: Seq<PasswordKind>) -> Option<String>
    decreases passwords.len(),
{
    if passwords.len() == 0 {
        None
    } else {
        match passwords.last() {
            PasswordKind::Hashed(h) => Some(h),
            PasswordKind::Plain(_) => last_hashed(passwords.drop_last()),
        }
    }
}

/// The passwords that are not verifiers.
pub open spec fn all_plain(passwords: Seq<PasswordKind>) -> Seq<String>
    decreases passwords.len(),
{
    if passwords.len() == 0 {
        Seq::empty()
    } else {
        match passwords.last() {
            PasswordKind::Plain(p) => all_plain(passwords.drop_last()).push(p),
            PasswordKind::Hashed(_) => all_plain(passwords.drop_last()),
        }
    }
}

/// What the first shard that answers says of its settings.
pub open spec fn first_answer(answers: Seq<Option<Vec<Parameter>>>) -> Option<Seq<Parameter>>
    decreases answers.len(),
{
    if answers.len() == 0 {
        None
    } else {
        match answers[0] {
            Some(params) => Some(params@),
            None => first_answer(answers.drop_first()),
        }
    }
}

/// What to do after an attempt to connect.
pub open spec fn after_attempt(
    binding: Binding,
    attempt: Result<(), Error>,
    retried: bool,
) -> ConnectAction {
    match attempt {
        Ok(_) => if retried || (forall|i: int|
            0 <= i < binding.guards().len() ==> (
            #[trigger] binding.guards()[i]).server.stats.state == State::Idle) {
            ConnectAction::Finish
        } else {
            ConnectAction::Fail(Error::NotInSync)
        },
        Err(err) => if retried {
            ConnectAction::Fail(err)
        } else {
            match err {
                Error::Pool(PoolError::Offline)
                | Error::Pool(PoolError::AllReplicasDown) => ConnectAction::Reload { wait: true },
                Error::Pool(PoolError::PreferredReadUnavailable) => ConnectAction::Reload {
                    wait: false,
                },
                _ => ConnectAction::Fail(err),
            }
        },
    }
}

/// What to do after the servers were asked for their settings.
pub open spec fn after_parameters(outcome: Result<(), Error>, retried: bool) -> ConnectAction {
    match outcome {
        Ok(_) => ConnectAction::Finish,
        Err(err) => if !retried && err == Error::Pool(PoolError::AllReplicasDown) {
            ConnectAction::Reload { wait: true }
        } else {
            ConnectAction::Fail(err)
        },
    }
}

/// What to do after an attempt to notify a channel.
pub open spec fn after_notify(outcome: Result<(), PoolError>, retried: bool) -> NotifyAction {
    match outcome {
        Ok(_) => NotifyAction::Finish,
        Err(PoolError::Offline) => NotifyAction::Reload { again: !retried },
        Err(err) => NotifyAction::Fail(Error::Pool(err)),
    }
}

/// What is sent to the servers for a request.
pub open spec fn request_plan(
    copy: bool,
    streaming: bool,
    rows: Result<usize, String>,
    prepared: bool,
    needs_preparing: bool,
    r: Result<RequestPlan, Error>,
) -> bool {
    if copy && !streaming {
        match rows {
            Err(text) => r matches Err(e) && e == Error::Router(text),
            Ok(n) => r matches Ok(plan) && plan == if n > 0 {
                RequestPlan::CopyRows
            } else {
                RequestPlan::Plain
            },
        }
    } else {
        r matches Ok(plan) && plan == if prepared && needs_preparing {
            RequestPlan::PrepareFirst
        } else {
            RequestPlan::Plain
        }
    }
}

/// `after` and `r` are what came of looking up the cluster and its mirrors.
pub open spec fn reloaded(
    before: Connection,
    after: Connection,
    cluster: Result<ClusterHandle, Error>,
    mirrors: Result<Vec<MirrorTarget>, Error>,
    r: Result<(), Error>,
) -> bool {
    if before.binding is Admin {
        r is Ok && after == before
    } else {
        match cluster {
            Err(e) => r == Err::<(), Error>(e) && after == before,
            Ok(handle) => match mirrors {
                Err(e) => r == Err::<(), Error>(e) && after == (Connection {
                    cluster: Some(handle),
                    ..before
                }),
                Ok(m) => r is Ok && after == (Connection {
                    cluster: Some(handle),
                    mirrors: m,
                    ..before
                }),
            },
        }
    }
}

/// The servers were locked to the client, or released.
pub open spec fn locked_to(before: Connection, after: Connection, lock: bool) -> bool {
    &&& after == (Connection { locked: lock, binding: after.binding, ..before })
    &&& if lock {
        marked_dirty(before.binding, after.binding)
    } else {
        after.binding == before.binding
    }
}

/// What to do before the cluster is fetched again.
pub open spec fn before_reload(
    c: Connection,
    passthrough: bool,
    known: bool,
    r: ReloadAction,
) -> bool {
    if c.binding is Admin {
        r == ReloadAction::Finish
    } else {
        match c.cluster {
            Some(cluster) => if passthrough && !known {
                r matches ReloadAction::AddUser(user) && {
                    &&& user.name == c.user
                    &&& user.database == c.database
                    &&& user.password is None
                    &&& user.password_hash == last_hashed(cluster.passwords@)
                    &&& user.passwords@ == all_plain(cluster.passwords@)
                    &&& user.has_no_settings()
                }
            } else {
                r == ReloadAction::Fetch
            },
            None => r == ReloadAction::Fetch,
        }
    }
}

/// The servers of the client can go back to their pools.
pub open spec fn lets_go(c: Connection) -> bool {
    c.binding.finished() && !c.locked
}

impl std::ops::Deref for Connection {
    type Target = Binding;

    fn deref(&self) -> (r: &Binding)
        ensures
            *r == self.binding,
    {
        &self.binding
    }
}

impl std::ops::DerefMut for Connection {
    fn deref_mut(&mut self) -> (r: &mut Binding)
        ensures
            *r == old(self).binding,
            *final(self) == (Connection { binding: *final(r), ..*old(self) }),
    {
        &mut self.binding
    }
}

impl Connection {
    /// The connections of a client that just logged in. Other than for the admin database, the
    /// cluster and its mirrors are looked up.
    pub fn new(
        user: &str,
        database: &str,
        admin: bool,
        cluster: Result<ClusterHandle, Error>,
        mirrors: Result<Vec<MirrorTarget>, Error>,
    ) -> (r: Result<Self, Error>)
        ensures
            admin ==> (r matches Ok(c) && c.binding == Binding::Admin(0) && c.cluster is None
                && c.mirrors@.len() == 0),
            !admin ==> match cluster {
                Err(e) => r == Err::<Self, Error>(e),
                Ok(handle) => match mirrors {
                    Err(e) => r == Err::<Self, Error>(e),
                    Ok(m) => r matches Ok(c) && c.binding == Binding::Direct(None) && c.cluster
                        == Some(handle) && c.mirrors == m,
                },
            },
            r matches Ok(c) ==> c.user@ == user@ && c.database@ == database@ && !c.locked,
    {
        let mut conn = Connection {
            user: owned(user),
            database: owned(database),
            binding: if admin {
                Binding::Admin(0)
            } else {
                Binding::Direct(None)
            },
            cluster: None,
            mirrors: Vec::new(),
            locked: false,
        };
        if !admin {
            match conn.reload(cluster, mirrors) {
                Ok(_) => {},
                Err(err) => {
                    return Err(err);
                },
            }
        }
        Ok(conn)
    }

    /// There is no server yet.
    pub open spec fn unbound(&self) -> bool {
        match self.binding {
            Binding::Direct(None) => true,
            Binding::MultiShard(guards, _) => guards@.len() == 0,
            _ => false,
        }
    }

    /// A server has to be found before a request can be sent.
    pub fn needs_connect(&self) -> (r: bool)
        ensures
            r == self.unbound(),
    {
        match &self.binding {
            Binding::Direct(None) => true,
            Binding::Direct(Some(_)) => false,
            Binding::MultiShard(guards, _) => guards.is_empty(),
            Binding::Admin(_) => false,
        }
    }

    /// What to do after an attempt to connect. Pools that were shut down by a change of the
    /// configuration are worth another attempt with the new ones, once. Connections that were just
    /// checked out have to be idle.
    pub fn connect(&self, attempt: Result<(), Error>, retried: bool) -> (r: ConnectAction)
        ensures
            r == after_attempt(self.binding, attempt, retried),
    {
        match attempt {
            Ok(_) => {
                if retried || self.binding.state_check(State::Idle) {
                    ConnectAction::Finish
                } else {
                    ConnectAction::Fail(Error::NotInSync)
                }
            },
            Err(err) => {
                if retried {
                    return ConnectAction::Fail(err);
                }
                match err {
                    Error::Pool(PoolError::Offline)
                    | Error::Pool(PoolError::AllReplicasDown) => ConnectAction::Reload {
                        wait: true,
                    },
                    Error::Pool(PoolError::PreferredReadUnavailable) => ConnectAction::Reload {
                        wait: false,
                    },
                    _ => ConnectAction::Fail(err),
                }
            },
        }
    }

    /// The shards that a connection is needed of.
    pub fn shards_needed(&self, route: &Route) -> (r: Result<Vec<usize>, Error>)
        ensures
            shards_wanted(self.cluster, route.shard, r),
    {
        let cluster = match self.cluster() {
            Ok(cluster) => cluster,
            Err(err) => {
                return Err(err);
            },
        };
        match &route.shard {
            RouteShard::Direct(n) => {
                if *n >= cluster.shards {
                    return Err(Error::Pool(PoolError::NoShard(*n)));
                }
                let mut list: Vec<usize> = Vec::new();
                list.push(*n);
                Ok(list)
            },
            RouteShard::Multi(numbers) => {
                let mut list: Vec<usize> = Vec::new();
                for i in 0..cluster.shards
                    invariant
                        route.shard == RouteShard::Multi(*numbers),
                        list@ == shards_for(route.shard, i as int),
                {
                    if listed(numbers, i) {
                        list.push(i);
                    }
                }
                Ok(list)
            },
            RouteShard::All => {
                let mut list: Vec<usize> = Vec::new();
                for i in 0..cluster.shards
                    invariant
                        route.shard == RouteShard::All,
                        list@ == shards_for(route.shard, i as int),
                {
                    list.push(i);
                }
                Ok(list)
            },
        }
    }

    /// Bind the client to the connections that were checked out for this route, one of each shard.
    /// In session mode they are reset when the client is done. The connections that the client is
    /// not bound to any longer come back.
    pub fn try_conn(&mut self, route: &Route, shards: Vec<usize>, servers: Vec<Guard>) -> (r: Vec<
        Guard,
    >)
        requires
            servers@.len() == shards@.len(),
            route.shard is Direct ==> servers@.len() == 1,
        ensures
            *final(self) == (Connection { binding: final(self).binding, ..*old(self) }),
            rebound(
                old(self).binding,
                with_reset(servers@, in_session_mode(old(self).cluster)),
                route.shard is Direct,
                final(self).binding,
                r@,
            ),
            final(self).binding matches Binding::MultiShard(_, numbers) ==> numbers == shards,
    {
        let reset = self.session_mode();
        let mut servers = servers;
        let ghost given = servers@;
        let mut i: usize = 0;
        while i < servers.len()
            invariant
                servers@.len() == given.len(),
                i <= servers@.len(),
                forall|k: int|
                    0 <= k < i ==> #[trigger] servers@[k] == (Guard {
                        reset: given[k].reset || reset,
                        ..given[k]
                    }),
                forall|k: int| i <= k < servers@.len() ==> #[trigger] servers@[k] == given[k],
            decreases servers@.len() - i,
        {
            if reset {
                servers[i].reset = true;
            }
            i = i + 1;
        }
        assert(servers@ == with_reset(given, reset));
        let direct = match route.shard {
            RouteShard::Direct(_) => true,
            _ => false,
        };
        if direct {
            if self.is_admin() {
                return servers;
            }
            let server = servers.remove(0);
            let mut binding = Binding::Direct(Some(server));
            std::mem::swap(&mut self.binding, &mut binding);
            released_guards(binding)
        } else {
            let mut binding = Binding::MultiShard(servers, shards);
            std::mem::swap(&mut self.binding, &mut binding);
            released_guards(binding)
        }
    }

    /// What the client is told of the settings of its servers: what the first shard that answered
    /// says. `answers` holds what came of asking the shards, one after the other.
    pub fn try_parameters(&self, answers: &Vec<Option<Vec<Parameter>>>) -> (r: Result<
        Vec<Parameter>,
        Error,
    >)
        ensures
            match self.cluster {
                None => r matches Err(e) && e == Error::ClusterNotConnected,
                Some(_) => match first_answer(answers@) {
                    Some(params) => r matches Ok(p) && p@ == params,
                    None => r matches Err(e) && e == Error::Pool(PoolError::AllReplicasDown),
                },
            },
    {
        match self.cluster() {
            Ok(_) => {},
            Err(err) => {
                return Err(err);
            },
        }
        assert(answers@.skip(0) == answers@);
        for i in 0..answers.len()
            invariant
                self.cluster is Some,
                first_answer(answers@) == first_answer(answers@.skip(i as int)),
        {
            assert(answers@.skip(i as int).drop_first() == answers@.skip(i + 1));
            match &answers[i] {
                Some(params) => {
                    return Ok(clone_all(params));
                },
                None => {},
            }
        }
        Err(Error::Pool(PoolError::AllReplicasDown))
    }

    /// What to do after the servers were asked for their settings. A change of the configuration
    /// can leave all pools of a cluster offline: that is worth another attempt with the new
    /// cluster, once.
    pub fn parameters(outcome: Result<(), Error>, retried: bool) -> (r: ConnectAction)
        ensures
            r == after_parameters(outcome, retried),
    {
        match outcome {
            Ok(_) => ConnectAction::Finish,
            Err(err) => {
                if retried {
                    return ConnectAction::Fail(err);
                }
                match err {
                    Error::Pool(PoolError::AllReplicasDown) => ConnectAction::Reload { wait: true },
                    _ => ConnectAction::Fail(err),
                }
            },
        }
    }

    /// The shard whose notifications a client can listen to or send: there has to be exactly one.
    /// Nothing is done for a shard that the cluster does not have.
    pub fn listen(&self, shard: &RouteShard) -> (r: Result<Option<usize>, Error>)
        ensures
            listens_to(self.cluster, *shard, r),
    {
        match shard {
            RouteShard::Direct(n) => match self.cluster() {
                Ok(cluster) => {
                    if *n < cluster.shards {
                        Ok(Some(*n))
                    } else {
                        Ok(None)
                    }
                },
                Err(err) => Err(err),
            },
            _ => Err(Error::ProtocolOutOfSync),
        }
    }

    /// What to do after an attempt to notify a channel: a pool that is offline is worth another
    /// attempt with the new cluster, once.
    pub fn notify(outcome: Result<(), PoolError>, retried: bool) -> (r: NotifyAction)
        ensures
            r == after_notify(outcome, retried),
    {
        match outcome {
            Ok(_) => NotifyAction::Finish,
            Err(PoolError::Offline) => NotifyAction::Reload { again: !retried },
            Err(err) => NotifyAction::Fail(Error::Pool(err)),
        }
    }

    /// What is sent to the servers for a request. Rows that the router read out of a `COPY` go each
    /// to its shard. A statement that was prepared in an earlier request is prepared again where
    /// this one needs it.
    pub fn handle_client_request(
        copy: bool,
        streaming: bool,
        rows: Result<usize, String>,
        prepared: bool,
        needs_preparing: bool,
    ) -> (r: Result<RequestPlan, Error>)
        ensures
            request_plan(copy, streaming, rows, prepared, needs_preparing, r),
    {
        if copy && !streaming {
            match rows {
                Ok(n) => {
                    if n > 0 {
                        Ok(RequestPlan::CopyRows)
                    } else {
                        Ok(RequestPlan::Plain)
                    }
                },
                Err(text) => Err(Error::Router(text)),
            }
        } else if prepared && needs_preparing {
            Ok(RequestPlan::PrepareFirst)
        } else {
            Ok(RequestPlan::Plain)
        }
    }

    /// What to do before the cluster is fetched again. A change of the configuration forgets users
    /// that logged in with a password of the server: such a user is added again, with the passwords
    /// that the cluster knew.
    pub fn safe_reload(&self, passthrough: bool, known: bool) -> (r: ReloadAction)
        ensures
            before_reload(*self, passthrough, known, r),
    {
        if self.is_admin() {
            return ReloadAction::Finish;
        }
        if !passthrough || known {
            return ReloadAction::Fetch;
        }
        match &self.cluster {
            None => ReloadAction::Fetch,
            Some(cluster) => {
                let mut user = User::default();
                user.name = self.user.clone();
                user.database = self.database.clone();
                assert(cluster.passwords@.take(0) == Seq::<PasswordKind>::empty());
                for i in 0..cluster.passwords.len()
                    invariant
                        user.name == self.user,
                        user.database == self.database,
                        user.password is None,
                        user.password_hash == last_hashed(cluster.passwords@.take(i as int)),
                        user.passwords@ == all_plain(cluster.passwords@.take(i as int)),
                        user.has_no_settings(),
                {
                    assert(cluster.passwords@.take(i + 1).drop_last() == cluster.passwords@.take(
                        i as int,
                    ));
                    match &cluster.passwords[i] {
                        PasswordKind::Hashed(hashed) => {
                            user.password_hash = Some(hashed.clone());
                        },
                        PasswordKind::Plain(plain) => {
                            user.passwords.push(plain.clone());
                        },
                    }
                }
                assert(cluster.passwords@.take(cluster.passwords@.len() as int)
                    == cluster.passwords@);
                ReloadAction::AddUser(user)
            },
        }
    }

    /// Take over the cluster and its mirrors as they were looked up. The admin database has none.
    pub fn reload(
        &mut self,
        cluster: Result<ClusterHandle, Error>,
        mirrors: Result<Vec<MirrorTarget>, Error>,
    ) -> (r: Result<(), Error>)
        ensures
            reloaded(*old(self), *final(self), cluster, mirrors, r),
    {
        if self.is_admin() {
            return Ok(());
        }
        match cluster {
            Ok(cluster) => {
                self.cluster = Some(cluster);
            },
            Err(err) => {
                return Err(err);
            },
        }
        match mirrors {
            Ok(mirrors) => {
                self.mirrors = mirrors;
                Ok(())
            },
            Err(err) => Err(err),
        }
    }

    /// The servers can go back to their pools.
    pub fn done(&self) -> (r: bool)
        ensures
            r == lets_go(*self),
    {
        self.binding.done() && !self.locked
    }

    /// Lock the servers to the client, or release them. What a client does with a server that is
    /// its own is cleaned up later.
    pub fn lock(&mut self, lock: bool)
        ensures
            locked_to(*old(self), *final(self), lock),
    {
        self.locked = lock;
        if lock {
            self.binding.dirty();
        }
    }

    /// The servers are locked to the client.
    pub fn locked(&self) -> (r: bool)
        ensures
            r == self.locked,
    {
        self.locked
    }

    /// Addresses of the servers that the client is connected to.
    pub fn addr(&self) -> (r: Result<Vec<&Address>, Error>)
        ensures
            match self.binding {
                Binding::Direct(None) => r matches Err(e) && e == Error::NotConnected,
                Binding::Admin(_) => r matches Err(e) && e == Error::NotConnected,
                _ => r matches Ok(list) && list@.len() == self.binding.guards().len() && forall|
                    i: int,
                |
                    0 <= i < list@.len() ==> *(#[trigger] list@[i])
                        == self.binding.guards()[i].server.addr,
            },
    {
        match &self.binding {
            Binding::Direct(Some(guard)) => {
                let mut list: Vec<&Address> = Vec::new();
                list.push(guard.server.addr());
                Ok(list)
            },
            Binding::Direct(None) => Err(Error::NotConnected),
            Binding::Admin(_) => Err(Error::NotConnected),
            Binding::MultiShard(guards, _) => {
                let mut list: Vec<&Address> = Vec::new();
                for i in 0..guards.len()
                    invariant
                        list@.len() == i,
                        forall|k: int|
                            0 <= k < i ==> *(#[trigger] list@[k]) == guards@[k].server.addr,
                {
                    list.push(guards[i].server.addr());
                }
                Ok(list)
            },
        }
    }

    /// The cluster.
    pub fn cluster(&self) -> (r: Result<&ClusterHandle, Error>)
        ensures
            match self.cluster {
                Some(cluster) => r matches Ok(c) && *c == cluster,
                None => r matches Err(e) && e == Error::ClusterNotConnected,
            },
    {
        match &self.cluster {
            Some(cluster) => Ok(cluster),
            None => Err(Error::ClusterNotConnected),
        }
    }

    /// Servers stay with the client as long as it is connected. So they do as long as the cluster
    /// is not known.
    pub fn session_mode(&self) -> (r: bool)
        ensures
            r == in_session_mode(self.cluster),
    {
        match &self.cluster {
            Some(cluster) => match cluster.pooler_mode {
                PoolerMode::Session => true,
                _ => false,
            },
            None => true,
        }
    }

    /// When servers go back to their pools.
    pub fn pooler_mode(&self) -> (r: PoolerMode)
        ensures
            r == match self.cluster {
                Some(cluster) => cluster.pooler_mode,
                None => PoolerMode::Transaction,
            },
    {
        match &self.cluster {
            Some(cluster) => cluster.pooler_mode,
            None => PoolerMode::default(),
        }
    }

    /// The client is connected to the admin database.
    pub fn is_admin(&self) -> (r: bool)
        ensures
            r == self.binding is Admin,
    {
        match &self.binding {
            Binding::Admin(_) => true,
            _ => false,
        }
    }
}

/// Servers stay with the client as long as it is connected.
pub open spec fn in_session_mode(cluster: Option<ClusterHandle>) -> bool {
    match cluster {
        Some(cluster) => cluster.pooler_mode == PoolerMode::Session,
        None => true,
    }
}

/// The number is in the list.
fn listed(numbers: &Vec<usize>, number: usize) -> (r: bool)
    ensures
        r == among(numbers@, number as int),
{
    for i in 0..numbers.len()
        invariant
            forall|k: int| 0 <= k < i ==> #[trigger] numbers@[k] != number,
    {
        if numbers[i] == number {
            assert(numbers@[i as int] == number);
            return true;
        }
    }
    false
}

/// The connections of a binding that is given up.
fn released_guards(binding: Binding) -> (r: Vec<Guard>)
    ensures
        r@ == binding.guards(),
{
    match binding {
        Binding::Direct(Some(guard)) => {
            let mut list: Vec<Guard> = Vec::new();
            list.push(guard);
            list
        },
        Binding::Direct(None) => Vec::new(),
        Binding::Admin(_) => Vec::new(),
        Binding::MultiShard(guards, _) => guards,
    }
}

/// A request goes to the shards of its route and to no other, each of them once and in order.
pub proof fn requests_go_where_routed(shard: RouteShard, count: usize, i: int)
    requires
        0 <= i < count,
    ensures
        shards_for(shard, count as int).contains(i as usize) <==> goes_to(shard, i),
        shards_for(shard, count as int).no_duplicates(),
{
    lemma_shards_for(shard, count as int, i);
}

pub(crate) proof fn lemma_shards_for(shard: RouteShard, n: int, i: int)
    requires
        0 <= i <= usize::MAX,
        0 <= n <= usize::MAX + 1,
    ensures
        shards_for(shard, n).contains(i as usize) <==> (goes_to(shard, i) && i < n),
        shards_for(shard, n).no_duplicates(),
        forall|k: int| 0 <= k < shards_for(shard, n).len() ==> #[trigger] shards_for(shard, n)[k] < n,
    decreases n,
{
    if n > 0 {
        lemma_shards_for(shard, n - 1, i);
        let before = shards_for(shard, n - 1);
        let after = shards_for(shard, n);
        if goes_to(shard, n - 1) {
            assert(after == before.push((n - 1) as usize));
            assert(after[before.len() as int] == (n - 1) as usize);
            if before.contains(i as usize) {
                let k = choose|k: int| 0 <= k < before.len() && before[k] == i as usize;
                assert(after[k] == i as usize);
            }
            if after.contains(i as usize) && !before.contains(i as usize) {
                let k = choose|k: int| 0 <= k < after.len() && after[k] == i as usize;
                assert(k == before.len()) by {
                    if k < before.len() {
                        assert(before[k] == i as usize);
                    }
                }
            }
        }
    }
}

/// No connection gets lost when a client is bound to new ones: each of the old and the new ones is
/// then bound to the client or given back.
pub proof fn bindings_keep_connections(
    before: Binding,
    fresh: Seq<Guard>,
    direct: bool,
    after: Binding,
    returned: Seq<Guard>,
)
    requires
        direct ==> fresh.len() == 1,
        rebound(before, fresh, direct, after, returned),
    ensures
        (after.guards() + returned).to_multiset() =~= (before.guards() + fresh).to_multiset(),
{
    broadcast use vstd::seq_lib::group_to_multiset_ensures;

    if direct && !(before is Admin) {
        assert(after.guards() == fresh);
    }
    vstd::seq_lib::lemma_multiset_commutative(after.guards(), returned);
    vstd::seq_lib::lemma_multiset_commutative(before.guards(), fresh);
}

} // verus!
