//! Databases that the pooler manages, and how reads and writes are spread over them.

#[allow(unused_imports)]
use crate::text::{all_ascii, ascii_lower, is_separator, lowered, without_separators};
use crate::config::general::PoolerMode;
use crate::text::{clone_option, concat2, owned, same, strip_separators, to_lowercase};
use std::str::FromStr;
use vstd::prelude::*;

verus! {

/// The characters of an error text.
pub open spec fn is_error<T>(r: Result<T, String>, text: Seq<char>) -> bool {
    match r {
        Ok(_) => false,
        Err(e) => e@ == text,
    }
}

/// How aggressive the query parser is in telling reads from writes.
#[derive(Clone, Copy, Debug, PartialEq, Eq, Structural)]
pub enum ReadWriteStrategy {
    /// Transactions are writes, standalone `SELECT` are reads.
    Conservative,
    /// The first statement inside a transaction decides.
    Aggressive,
}

impl Default for ReadWriteStrategy {
    fn default() -> (r: Self)
        ensures
            r == ReadWriteStrategy::Conservative,
    {
        ReadWriteStrategy::Conservative
    }
}

impl ReadWriteStrategy {
    /// The strategy that a lower-case name stands for.
    pub open spec fn named(name: Seq<char>) -> Option<Self> {
        if name == "conservative"@ {
            Some(ReadWriteStrategy::Conservative)
        } else if name == "aggressive"@ {
            Some(ReadWriteStrategy::Aggressive)
        } else {
            None
        }
    }

    /// The strategy that a lower-case name stands for.
    pub fn from_lowered(name: &str) -> (r: Option<Self>)
        ensures
            r == Self::named(name@),
    {
        if same(name, "conservative") {
            Some(ReadWriteStrategy::Conservative)
        } else if same(name, "aggressive") {
            Some(ReadWriteStrategy::Aggressive)
        } else {
            None
        }
    }

    /// Read a strategy, in any case of letters.
    pub fn parse(s: &str) -> (r: Result<Self, String>)
        ensures
            match Self::named(lowered(s@)) {
                Some(v) => r == Ok::<Self, String>(v),
                None => is_error(r, "Invalid read-write strategy: "@ + s@),
            },
    {
        let name = to_lowercase(s);
        match Self::from_lowered(name.as_str()) {
            Some(v) => Ok(v),
            None => Err(concat2("Invalid read-write strategy: ", s)),
        }
    }
}

impl FromStr for ReadWriteStrategy {
    type Err = String;

    fn from_str(s: &str) -> (r: Result<Self, String>)
        ensures
            match Self::named(lowered(s@)) {
                Some(v) => r == Ok::<Self, String>(v),
                None => is_error(r, "Invalid read-write strategy: "@ + s@),
            },
    {
        Self::parse(s)
    }
}

/// Which strategy to use for load balancing read queries.
#[derive(Clone, Copy, Debug, PartialEq, Eq, Structural)]
pub enum LoadBalancingStrategy {
    /// Select a replica at random.
    Random,
    /// Distribute queries in a round-robin sequence.
    RoundRobin,
    /// Route to the replica with the fewest active connections.
    LeastActiveConnections,
    /// Distribute requests in proportion to configured weights.
    WeightedRoundRobin,
}

impl Default for LoadBalancingStrategy {
    fn default() -> (r: Self)
        ensures
            r == LoadBalancingStrategy::Random,
    {
        LoadBalancingStrategy::Random
    }
}

impl LoadBalancingStrategy {
    /// The strategy that a lower-case name without separators stands for.
    pub open spec fn named(name: Seq<char>) -> Option<Self> {
        if name == "random"@ {
            Some(LoadBalancingStrategy::Random)
        } else if name == "roundrobin"@ {
            Some(LoadBalancingStrategy::RoundRobin)
        } else if name == "leastactiveconnections"@ {
            Some(LoadBalancingStrategy::LeastActiveConnections)
        } else if name == "weightedroundrobin"@ {
            Some(LoadBalancingStrategy::WeightedRoundRobin)
        } else {
            None
        }
    }

    /// The strategy that a lower-case name stands for; `_` and `-` do not count.
    pub fn from_lowered(name: &str) -> (r: Option<Self>)
        ensures
            r == Self::named(without_separators(name@)),
    {
        let bare = strip_separators(name);
        let bare = bare.as_str();
        if same(bare, "random") {
            Some(LoadBalancingStrategy::Random)
        } else if same(bare, "roundrobin") {
            Some(LoadBalancingStrategy::RoundRobin)
        } else if same(bare, "leastactiveconnections") {
            Some(LoadBalancingStrategy::LeastActiveConnections)
        } else if same(bare, "weightedroundrobin") {
            Some(LoadBalancingStrategy::WeightedRoundRobin)
        } else {
            None
        }
    }

    /// Read a strategy, in any case of letters and with any use of `_` and `-`.
    pub fn parse(s: &str) -> (r: Result<Self, String>)
        ensures
            match Self::named(without_separators(lowered(s@))) {
                Some(v) => r == Ok::<Self, String>(v),
                None => is_error(r, "Invalid load balancing strategy: "@ + s@),
            },
    {
        let name = to_lowercase(s);
        match Self::from_lowered(name.as_str()) {
            Some(v) => Ok(v),
            None => Err(concat2("Invalid load balancing strategy: ", s)),
        }
    }
}

impl FromStr for LoadBalancingStrategy {
    type Err = String;

    fn from_str(s: &str) -> (r: Result<Self, String>)
        ensures
            match Self::named(without_separators(lowered(s@))) {
                Some(v) => r == Ok::<Self, String>(v),
                None => is_error(r, "Invalid load balancing strategy: "@ + s@),
            },
    {
        Self::parse(s)
    }
}

/// How to separate read and write queries.
#[derive(Clone, Copy, Debug, PartialEq, Eq, Structural)]
pub enum ReadWriteSplit {
    /// The primary serves reads as well as the replicas.
    IncludePrimary,
    /// All reads go to replicas, the primary serves writes only.
    ExcludePrimary,
    /// Reads go to the primary only if all replicas have been banned.
    IncludePrimaryIfReplicaBanned,
    /// All queries go to the primary by default. Reads that ask for a replica go to replicas, and
    /// fall back to the primary if all replicas are banned.
    PreferPrimary,
}

impl Default for ReadWriteSplit {
    fn default() -> (r: Self)
        ensures
            r == ReadWriteSplit::IncludePrimary,
    {
        ReadWriteSplit::IncludePrimary
    }
}

impl ReadWriteSplit {
    /// The setting that a lower-case name without separators stands for.
    pub open spec fn named(name: Seq<char>) -> Option<Self> {
        if name == "includeprimary"@ {
            Some(ReadWriteSplit::IncludePrimary)
        } else if name == "excludeprimary"@ {
            Some(ReadWriteSplit::ExcludePrimary)
        } else if name == "includeprimaryifreplicabanned"@ {
            Some(ReadWriteSplit::IncludePrimaryIfReplicaBanned)
        } else if name == "preferprimary"@ {
            Some(ReadWriteSplit::PreferPrimary)
        } else {
            None
        }
    }

    /// What a text stands for, in any case of letters and with any use of `_` and `-`.
    pub open spec fn parsed(s: Seq<char>) -> Option<Self> {
        Self::named(without_separators(lowered(s)))
    }

    /// How the setting is written.
    pub open spec fn shown(&self) -> Seq<char> {
        match self {
            ReadWriteSplit::ExcludePrimary => "exclude_primary"@,
            ReadWriteSplit::IncludePrimary => "include_primary"@,
            ReadWriteSplit::IncludePrimaryIfReplicaBanned => "include_primary_if_replica_banned"@,
            ReadWriteSplit::PreferPrimary => "prefer_primary"@,
        }
    }

    /// The setting that a lower-case name stands for; `_` and `-` do not count.
    pub fn from_lowered(name: &str) -> (r: Option<Self>)
        ensures
            r == Self::named(without_separators(name@)),
    {
        let bare = strip_separators(name);
        let bare = bare.as_str();
        if same(bare, "includeprimary") {
            Some(ReadWriteSplit::IncludePrimary)
        } else if same(bare, "excludeprimary") {
            Some(ReadWriteSplit::ExcludePrimary)
        } else if same(bare, "includeprimaryifreplicabanned") {
            Some(ReadWriteSplit::IncludePrimaryIfReplicaBanned)
        } else if same(bare, "preferprimary") {
            Some(ReadWriteSplit::PreferPrimary)
        } else {
            None
        }
    }

    /// Read a setting, in any case of letters and with any use of `_` and `-`.
    pub fn parse(s: &str) -> (r: Result<Self, String>)
        ensures
            match Self::parsed(s@) {
                Some(v) => r == Ok::<Self, String>(v),
                None => is_error(r, "Invalid read-write split: "@ + s@),
            },
    {
        let name = to_lowercase(s);
        match Self::from_lowered(name.as_str()) {
            Some(v) => Ok(v),
            None => Err(concat2("Invalid read-write split: ", s)),
        }
    }

    /// How the setting is written.
    pub fn to_string(&self) -> (r: String)
        ensures
            r@ == self.shown(),
    {
        match self {
            ReadWriteSplit::ExcludePrimary => owned("exclude_primary"),
            ReadWriteSplit::IncludePrimary => owned("include_primary"),
            ReadWriteSplit::IncludePrimaryIfReplicaBanned => owned(
                "include_primary_if_replica_banned",
            ),
            ReadWriteSplit::PreferPrimary => owned("prefer_primary"),
        }
    }
}

impl FromStr for ReadWriteSplit {
    type Err = String;

    fn from_str(s: &str) -> (r: Result<Self, String>)
        ensures
            match Self::parsed(s@) {
                Some(v) => r == Ok::<Self, String>(v),
                None => is_error(r, "Invalid read-write split: "@ + s@),
            },
    {
        Self::parse(s)
    }
}

/// Role a PostgreSQL server performs in a cluster.
#[derive(Clone, Copy, Debug, PartialEq, Eq, Hash, Structural)]
pub enum Role {
    /// Serves writes and reads.
    Primary,
    /// Serves reads only.
    Replica,
    /// Detected at runtime.
    Auto,
}

impl Default for Role {
    fn default() -> (r: Self)
        ensures
            r == Role::Primary,
    {
        Role::Primary
    }
}

impl Role {
    /// The number that stands for a role.
    pub open spec fn number(&self) -> u8 {
        match self {
            Role::Auto => 0u8,
            Role::Primary => 1u8,
            Role::Replica => 2u8,
        }
    }

    /// The role that a number stands for.
    pub open spec fn numbered(value: u8) -> Option<Self> {
        if value == 0 {
            Some(Role::Auto)
        } else if value == 1 {
            Some(Role::Primary)
        } else if value == 2 {
            Some(Role::Replica)
        } else {
            None
        }
    }

    /// The role that a lower-case name stands for.
    pub open spec fn named(name: Seq<char>) -> Option<Self> {
        if name == "primary"@ {
            Some(Role::Primary)
        } else if name == "replica"@ {
            Some(Role::Replica)
        } else if name == "auto"@ {
            Some(Role::Auto)
        } else {
            None
        }
    }

    /// What a text stands for, in any case of letters.
    pub open spec fn parsed(s: Seq<char>) -> Option<Self> {
        Self::named(lowered(s))
    }

    /// How the role is written.
    pub open spec fn shown(&self) -> Seq<char> {
        match self {
            Role::Primary => "primary"@,
            Role::Replica => "replica"@,
            Role::Auto => "auto"@,
        }
    }

    /// The role that a lower-case name stands for.
    pub fn from_lowered(name: &str) -> (r: Option<Self>)
        ensures
            r == Self::named(name@),
    {
        if same(name, "primary") {
            Some(Role::Primary)
        } else if same(name, "replica") {
            Some(Role::Replica)
        } else if same(name, "auto") {
            Some(Role::Auto)
        } else {
            None
        }
    }

    /// Read a role, in any case of letters.
    pub fn parse(s: &str) -> (r: Result<Self, String>)
        ensures
            match Self::parsed(s@) {
                Some(v) => r == Ok::<Self, String>(v),
                None => is_error(r, "Invalid role: "@ + s@),
            },
    {
        let name = to_lowercase(s);
        match Self::from_lowered(name.as_str()) {
            Some(v) => Ok(v),
            None => Err(concat2("Invalid role: ", s)),
        }
    }

    /// How the role is written.
    pub fn to_string(&self) -> (r: String)
        ensures
            r@ == self.shown(),
    {
        match self {
            Role::Primary => owned("primary"),
            Role::Replica => owned("replica"),
            Role::Auto => owned("auto"),
        }
    }

    /// The number that stands for the role.
    pub fn to_number(&self) -> (r: u8)
        ensures
            r == self.number(),
    {
        match self {
            Role::Auto => 0,
            Role::Primary => 1,
            Role::Replica => 2,
        }
    }

    /// The role that a number stands for.
    pub fn from_number(value: u8) -> (r: Result<Self, ()>)
        ensures
            r == match Self::numbered(value) {
                Some(role) => Ok::<Self, ()>(role),
                None => Err(()),
            },
    {
        if value == 0 {
            Ok(Role::Auto)
        } else if value == 1 {
            Ok(Role::Primary)
        } else if value == 2 {
            Ok(Role::Replica)
        } else {
            Err(())
        }
    }
}

impl FromStr for Role {
    type Err = String;

    fn from_str(s: &str) -> (r: Result<Self, String>)
        ensures
            match Self::parsed(s@) {
                Some(v) => r == Ok::<Self, String>(v),
                None => is_error(r, "Invalid role: "@ + s@),
            },
    {
        Self::parse(s)
    }
}

impl From<Role> for u8 {
    fn from(value: Role) -> (r: u8) {
        value.to_number()
    }
}

impl vstd::std_specs::convert::FromSpecImpl<Role> for u8 {
    open spec fn obeys_from_spec() -> bool {
        true
    }

    open spec fn from_spec(value: Role) -> u8 {
        value.number()
    }
}

impl TryFrom<u8> for Role {
    type Error = ();

    fn try_from(value: u8) -> (r: Result<Self, ()>) {
        Self::from_number(value)
    }
}

impl vstd::std_specs::convert::TryFromSpecImpl<u8> for Role {
    open spec fn obeys_try_from_spec() -> bool {
        true
    }

    open spec fn try_from_spec(value: u8) -> Result<Self, ()> {
        match Self::numbered(value) {
            Some(role) => Ok(role),
            None => Err(()),
        }
    }
}

/// A server that the pooler connects to.
#[derive(Debug, PartialEq, Eq)]
pub struct Database {
    /// Name that clients use. Entries of one cluster share it.
    pub name: String,
    /// Role of the server.
    pub role: Role,
    /// Address or DNS name of the machine.
    pub host: String,
    /// Port of the server.
    pub port: u16,
    /// Shard number, from 0.
    pub shard: usize,
    /// Name of the database on the server, `name` if not set.
    pub database_name: Option<String>,
    /// User to connect as.
    pub user: Option<String>,
    /// Password to connect with.
    pub password: Option<String>,
    /// Most connections a pool may open.
    pub pool_size: Option<usize>,
    /// Fewest connections a pool keeps open.
    pub min_pool_size: Option<usize>,
    /// Pooler mode of this database.
    pub pooler_mode: Option<PoolerMode>,
    /// `statement_timeout` of all connections.
    pub statement_timeout: Option<u64>,
    /// Idle connections past this many milliseconds are closed.
    pub idle_timeout: Option<u64>,
    /// Connections start transactions read-only.
    pub read_only: Option<bool>,
    /// Connections older than this many milliseconds are closed.
    pub server_lifetime: Option<u64>,
    /// Spread of the lifetime, in milliseconds.
    pub server_lifetime_jitter: Option<u64>,
    /// The server takes part in resharding only and serves no regular traffic.
    pub resharding_only: bool,
    /// Weight in weighted load balancing.
    pub lb_weight: u8,
}

impl Database {
    /// Connections to one database are not limited by default.
    pub fn max_connections() -> (r: usize)
        ensures
            r == usize::MAX,
    {
        usize::MAX
    }

    /// Port of a server that does not give one.
    pub fn default_port() -> (r: u16)
        ensures
            r == 5432,
    {
        5432
    }

    /// Weight of a server that does not give one.
    pub fn default_lb_weight() -> (r: u8)
        ensures
            r == 255,
    {
        255
    }

    /// A database of this name, everything else unset.
    pub open spec fn unset(&self) -> bool {
        &&& self.role == Role::Primary
        &&& self.host@.len() == 0
        &&& self.port == 0
        &&& self.shard == 0
        &&& self.database_name is None
        &&& self.user is None
        &&& self.password is None
        &&& self.pool_size is None
        &&& self.min_pool_size is None
        &&& self.pooler_mode is None
        &&& self.statement_timeout is None
        &&& self.idle_timeout is None
        &&& self.read_only is None
        &&& self.server_lifetime is None
        &&& self.server_lifetime_jitter is None
        &&& !self.resharding_only
        &&& self.lb_weight == 0
    }
}

impl Default for Database {
    fn default() -> (r: Self)
        ensures
            r.name@.len() == 0,
            r.unset(),
    {
        Database {
            name: String::new(),
            role: Role::Primary,
            host: String::new(),
            port: 0,
            shard: 0,
            database_name: None,
            user: None,
            password: None,
            pool_size: None,
            min_pool_size: None,
            pooler_mode: None,
            statement_timeout: None,
            idle_timeout: None,
            read_only: None,
            server_lifetime: None,
            server_lifetime_jitter: None,
            resharding_only: false,
            lb_weight: 0,
        }
    }
}

impl Clone for Database {
    fn clone(&self) -> (r: Self)
        ensures
            r == *self,
    {
        Database {
            name: self.name.clone(),
            role: self.role,
            host: self.host.clone(),
            port: self.port,
            shard: self.shard,
            database_name: clone_option(&self.database_name),
            user: clone_option(&self.user),
            password: clone_option(&self.password),
            pool_size: self.pool_size,
            min_pool_size: self.min_pool_size,
            pooler_mode: self.pooler_mode,
            statement_timeout: self.statement_timeout,
            idle_timeout: self.idle_timeout,
            read_only: self.read_only,
            server_lifetime: self.server_lifetime,
            server_lifetime_jitter: self.server_lifetime_jitter,
            resharding_only: self.resharding_only,
            lb_weight: self.lb_weight,
        }
    }
}

/// A database with the number of its entry in the configuration.
#[derive(Debug, PartialEq, Eq)]
pub struct EnumeratedDatabase {
    /// Number of the entry, from 0.
    pub number: usize,
    /// The entry.
    pub database: Database,
}

impl Clone for EnumeratedDatabase {
    fn clone(&self) -> (r: Self)
        ensures
            r == *self,
    {
        EnumeratedDatabase { number: self.number, database: self.database.clone() }
    }
}

impl std::ops::Deref for EnumeratedDatabase {
    type Target = Database;

    fn deref(&self) -> (r: &Database)
        ensures
            *r == self.database,
    {
        &self.database
    }
}

impl std::ops::DerefMut for EnumeratedDatabase {
    fn deref_mut(&mut self) -> (r: &mut Database)
        ensures
            *r == old(self).database,
            *final(self) == (EnumeratedDatabase { database: *final(r), ..*old(self) }),
    {
        &mut self.database
    }
}

proof fn lemma_filter_keeps(s: Seq<char>, keep: spec_fn(char) -> bool)
    requires
        forall|i: int| 0 <= i < s.len() ==> keep(#[trigger] s[i]),
    ensures
        s.filter(keep) == s,
    decreases s.len(),
{
    reveal(Seq::filter);
    if s.len() > 0 {
        assert forall|i: int| 0 <= i < s.drop_last().len() implies keep(
            #[trigger] s.drop_last()[i],
        ) by {
            assert(s.drop_last()[i] == s[i]);
        }
        lemma_filter_keeps(s.drop_last(), keep);
        assert(keep(s[s.len() - 1]));
        assert(s.drop_last().push(s.last()) == s);
    }
}

/// Two words without separators, put together with `_`, are the two words put together once the
/// separators are gone.
proof fn lemma_two_words(a: Seq<char>, b: Seq<char>)
    requires
        forall|i: int| 0 <= i < a.len() ==> !is_separator(#[trigger] a[i]),
        forall|i: int| 0 <= i < b.len() ==> !is_separator(#[trigger] b[i]),
    ensures
        without_separators(a + seq!['_'] + b) == a + b,
{
    let keep = |c: char| !is_separator(c);
    lemma_filter_keeps(a, keep);
    lemma_filter_keeps(b, keep);
    Seq::filter_distributes_over_add(a + seq!['_'], b, keep);
    Seq::filter_distributes_over_add(a, seq!['_'], keep);
    assert(seq!['_'].filter(keep) == Seq::<char>::empty()) by {
        reveal(Seq::filter);
        assert(seq!['_'].drop_last() == Seq::<char>::empty());
        assert(seq!['_'].last() == '_');
        assert(Seq::<char>::empty().filter(keep) == Seq::<char>::empty());
    }
    assert((a + Seq::<char>::empty()) + b == a + b);
}

/// A text of small ASCII letters and `_` is its own lower case.
proof fn lemma_lowered_same(s: Seq<char>)
    requires
        forall|i: int|
            0 <= i < s.len() ==> ('a' <= #[trigger] s[i] && s[i] <= 'z') || s[i] == '_',
    ensures
        lowered(s) == s,
{
    assert(all_ascii(s)) by {
        assert forall|i: int| 0 <= i < s.len() implies (#[trigger] s[i] as u32) < 128 by {}
    }
    assert(s.map_values(|c: char| ascii_lower(c)) == s);
}

/// Writing a split setting and reading it back gives the same setting.
pub proof fn read_write_split_round_trip(v: ReadWriteSplit)
    ensures
        ReadWriteSplit::parsed(v.shown()) == Some(v),
{
    reveal_strlit("include_primary");
    reveal_strlit("exclude_primary");
    reveal_strlit("prefer_primary");
    reveal_strlit("include_primary_if_replica_banned");
    reveal_strlit("includeprimary");
    reveal_strlit("excludeprimary");
    reveal_strlit("preferprimary");
    reveal_strlit("includeprimaryifreplicabanned");
    lemma_lowered_same(v.shown());
    let s = v.shown();
    match v {
        ReadWriteSplit::IncludePrimary => {
            let a = s.take(7);
            let b = s.skip(8);
            lemma_two_words(a, b);
            assert(s == a + seq!['_'] + b);
            assert(a + b == "includeprimary"@);
        },
        ReadWriteSplit::ExcludePrimary => {
            let a = s.take(7);
            let b = s.skip(8);
            lemma_two_words(a, b);
            assert(s == a + seq!['_'] + b);
            assert(a + b == "excludeprimary"@);
            assert("excludeprimary"@[0] != "includeprimary"@[0]);
        },
        ReadWriteSplit::PreferPrimary => {
            let a = s.take(6);
            let b = s.skip(7);
            lemma_two_words(a, b);
            assert(s == a + seq!['_'] + b);
            assert(a + b == "preferprimary"@);
        },
        ReadWriteSplit::IncludePrimaryIfReplicaBanned => {
            let keep = |c: char| !is_separator(c);
            let w1 = s.subrange(0, 7);
            let w2 = s.subrange(8, 15);
            let w3 = s.subrange(16, 18);
            let w4 = s.subrange(19, 26);
            let w5 = s.subrange(27, 33);
            lemma_two_words(w1, w2);
            lemma_two_words(w3, w4);
            let left = w1 + seq!['_'] + w2;
            let right = w3 + seq!['_'] + w4;
            let u = seq!['_'];
            lemma_filter_keeps(w5, keep);
            assert(u.filter(keep) == Seq::<char>::empty()) by {
                reveal(Seq::filter);
                assert(u.drop_last() == Seq::<char>::empty());
                assert(u.last() == '_');
                assert(Seq::<char>::empty().filter(keep) == Seq::<char>::empty());
            }
            Seq::filter_distributes_over_add(left + u + right + u, w5, keep);
            Seq::filter_distributes_over_add(left + u + right, u, keep);
            Seq::filter_distributes_over_add(left + u, right, keep);
            Seq::filter_distributes_over_add(left, u, keep);
            assert(s == left + u + right + u + w5);
            assert(without_separators(s) == (w1 + w2) + (w3 + w4) + w5);
            assert((w1 + w2) + (w3 + w4) + w5 == "includeprimaryifreplicabanned"@);
        },
    }
}

/// Writing a role and reading it back gives the same role.
pub proof fn role_text_round_trip(v: Role)
    ensures
        Role::parsed(v.shown()) == Some(v),
{
    reveal_strlit("primary");
    reveal_strlit("replica");
    reveal_strlit("auto");
    lemma_lowered_same(v.shown());
    assert("primary"@[0] == 'p' && "replica"@[0] == 'r');
}

/// The number of a role stands for that role, and a number that stands for a role is its number.
pub proof fn role_number_round_trip(v: Role, n: u8)
    ensures
        Role::numbered(v.number()) == Some(v),
        Role::numbered(n) matches Some(role) ==> role.number() == n,
        Role::numbered(n) is None <==> n > 2,
{
}

} // verus!
