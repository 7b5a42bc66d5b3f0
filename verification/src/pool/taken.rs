//! Requests for connections, and which connection serves which client.

use crate::net::BackendKeyData;
use crate::pool::error::Error;
use crate::time::Instant;
use vstd::prelude::*;

verus! {

/// A client asks for a connection.
#[derive(Clone, Copy, Debug, PartialEq, Eq, Structural)]
pub struct Request {
    /// The client.
    pub id: BackendKeyData,
    /// When it asked.
    pub created_at: Instant,
    /// It wants to read only.
    pub read: bool,
}

impl Request {
    /// A client asks for a connection.
    pub fn new(id: BackendKeyData, created_at: Instant, read: bool) -> (r: Self)
        ensures
            r == (Request { id, created_at, read }),
    {
        Request { id, created_at, read }
    }

    /// A client asks for a connection before it is known what for.
    pub fn unrouted(id: BackendKeyData, created_at: Instant) -> (r: Self)
        ensures
            r == (Request { id, created_at, read: false }),
    {
        Request { id, created_at, read: false }
    }
}

impl Default for Request {
    fn default() -> (r: Self)
        ensures
            r == (Request {
                id: BackendKeyData { pid: 0, secret: 0 },
                created_at: Instant { nanos: 0 },
                read: false,
            }),
    {
        Request { id: BackendKeyData::default(), created_at: Instant::default(), read: false }
    }
}

/// A connection serves a client.
#[derive(Clone, Copy, Debug, PartialEq, Eq, Structural)]
pub struct Mapping {
    /// The client.
    pub client: BackendKeyData,
    /// The connection.
    pub server: BackendKeyData,
}

impl Default for Mapping {
    fn default() -> (r: Self)
        ensures
            r == (Mapping {
                client: BackendKeyData { pid: 0, secret: 0 },
                server: BackendKeyData { pid: 0, secret: 0 },
            }),
    {
        Mapping { client: BackendKeyData::default(), server: BackendKeyData::default() }
    }
}

/// Connections that are handed out, oldest first.
#[derive(Debug)]
pub struct Taken {
    /// Who serves whom.
    pub mappings: Vec<Mapping>,
}

/// The connection is handed out.
pub open spec fn serves(mappings: Seq<Mapping>, server: BackendKeyData) -> bool {
    exists|i: int| 0 <= i < mappings.len() && (#[trigger] mappings[i]).server == server
}

/// The mappings without the oldest one of this connection.
pub open spec fn without(mappings: Seq<Mapping>, server: BackendKeyData) -> Seq<Mapping>
    decreases mappings.len(),
{
    if mappings.len() == 0 {
        mappings
    } else if mappings[0].server == server {
        mappings.skip(1)
    } else {
        seq![mappings[0]] + without(mappings.skip(1), server)
    }
}

/// The connection that was handed to the client last.
pub open spec fn last_for(mappings: Seq<Mapping>, client: BackendKeyData) -> Option<BackendKeyData>
    decreases mappings.len(),
{
    if mappings.len() == 0 {
        None
    } else if mappings.last().client == client {
        Some(mappings.last().server)
    } else {
        last_for(mappings.drop_last(), client)
    }
}

pub(crate) proof fn lemma_without(mappings: Seq<Mapping>, i: int)
    requires
        0 <= i < mappings.len(),
        forall|j: int| 0 <= j < i ==> (#[trigger] mappings[j]).server != mappings[i].server,
    ensures
        without(mappings, mappings[i].server) == mappings.remove(i),
    decreases mappings.len(),
{
    if i == 0 {
        assert(mappings.skip(1) == mappings.remove(0));
    } else {
        let rest = mappings.skip(1);
        assert(mappings[0].server != mappings[i].server);
        assert forall|j: int| 0 <= j < i - 1 implies (#[trigger] rest[j]).server != rest[i
            - 1].server by {
            assert(rest[j] == mappings[j + 1]);
        }
        lemma_without(rest, i - 1);
        assert(seq![mappings[0]] + rest.remove(i - 1) == mappings.remove(i));
    }
}

/// Taking a mapping out makes the list shorter by one, if it was there.
pub(crate) proof fn lemma_without_len(mappings: Seq<Mapping>, server: BackendKeyData)
    ensures
        serves(mappings, server) ==> without(mappings, server).len() == mappings.len() - 1,
        !serves(mappings, server) ==> without(mappings, server) == mappings,
    decreases mappings.len(),
{
    if mappings.len() > 0 && mappings[0].server != server {
        let rest = mappings.skip(1);
        lemma_without_len(rest, server);
        if serves(mappings, server) {
            let i = choose|i: int| 0 <= i < mappings.len() && (#[trigger] mappings[i]).server == server;
            assert(rest[i - 1].server == server);
        } else {
            assert forall|j: int| 0 <= j < rest.len() implies (#[trigger] rest[j]).server
                != server by {
                assert(rest[j] == mappings[j + 1]);
            }
            assert(seq![mappings[0]] + rest == mappings);
        }
    } else if mappings.len() > 0 {
        assert(mappings[0].server == server);
    }
}

impl Taken {
    /// Who serves whom.
    pub open spec fn view(&self) -> Seq<Mapping> {
        self.mappings@
    }

    /// Nothing is handed out.
    pub fn new() -> (r: Self)
        ensures
            r@.len() == 0,
    {
        Taken { mappings: Vec::new() }
    }

    /// Remember that a connection serves a client.
    pub fn take(&mut self, mapping: &Mapping) -> (r: Result<(), Error>)
        ensures
            r is Ok,
            final(self)@ == old(self)@.push(*mapping),
    {
        self.mappings.push(*mapping);
        Ok(())
    }

    /// Forget that a connection serves a client.
    pub fn check_in(&mut self, server: &BackendKeyData) -> (r: Result<(), Error>)
        ensures
            r == if serves(old(self)@, *server) {
                Ok::<(), Error>(())
            } else {
                Err(Error::UntrackedConnCheckin(*server))
            },
            final(self)@ == without(old(self)@, *server),
            serves(old(self)@, *server) ==> final(self)@.len() == old(self)@.len() - 1,
            !serves(old(self)@, *server) ==> *final(self) == *old(self),
    {
        let ghost before = self.mappings@;
        let mut i: usize = 0;
        while i < self.mappings.len()
            invariant
                i <= self.mappings@.len(),
                *self == *old(self),
                before == self.mappings@,
                forall|j: int| 0 <= j < i ==> (#[trigger] before[j]).server != *server,
            decreases self.mappings@.len() - i,
        {
            if self.mappings[i].server == *server {
                let _ = self.mappings.remove(i);
                proof {
                    lemma_without(before, i as int);
                }
                return Ok(());
            }
            i = i + 1;
        }
        proof {
            lemma_without_len(before, *server);
        }
        Err(Error::UntrackedConnCheckin(*server))
    }

    /// The connection is handed out.
    pub fn contains(&self, server: &BackendKeyData) -> (r: bool)
        ensures
            r == serves(self@, *server),
    {
        for i in 0..self.mappings.len()
            invariant
                forall|j: int| 0 <= j < i ==> (#[trigger] self@[j]).server != *server,
        {
            if self.mappings[i].server == *server {
                assert(self@[i as int].server == *server);
                return true;
            }
        }
        false
    }

    /// Number of connections that are handed out.
    pub fn len(&self) -> (r: usize)
        ensures
            r == self@.len(),
    {
        self.mappings.len()
    }

    /// Nothing is handed out.
    pub fn is_empty(&self) -> (r: bool)
        ensures
            r == (self@.len() == 0),
    {
        self.mappings.is_empty()
    }

    /// Forget all connections.
    pub fn clear(&mut self)
        ensures
            final(self)@.len() == 0,
    {
        self.mappings.clear();
    }

    /// All connections that are handed out.
    pub fn servers(&self) -> (r: Vec<BackendKeyData>)
        ensures
            r@ == self@.map_values(|m: Mapping| m.server),
    {
        let mut out: Vec<BackendKeyData> = Vec::new();
        for i in 0..self.mappings.len()
            invariant
                out@ == self@.take(i as int).map_values(|m: Mapping| m.server),
        {
            out.push(self.mappings[i].server);
            assert(out@ == self@.take(i + 1).map_values(|m: Mapping| m.server));
        }
        assert(self@.take(self@.len() as int) == self@);
        out
    }

    /// The connection that was handed to the client last.
    pub fn server(&self, client: &BackendKeyData) -> (r: Option<BackendKeyData>)
        ensures
            r == last_for(self@, *client),
    {
        let mut i: usize = self.mappings.len();
        assert(self@.take(i as int) == self@);
        while i > 0
            invariant
                i <= self@.len(),
                last_for(self@, *client) == last_for(self@.take(i as int), *client),
            decreases i,
        {
            i = i - 1;
            assert(self@.take(i + 1).drop_last() == self@.take(i as int));
            assert(self@.take(i + 1).last() == self@[i as int]);
            if self.mappings[i].client == *client {
                return Some(self.mappings[i].server);
            }
        }
        None
    }

    /// Take over the connections of another pool.
    pub fn merge(&mut self, other: Taken)
        ensures
            final(self)@ == old(self)@ + other@,
    {
        let mut mappings = other.mappings;
        self.mappings.append(&mut mappings);
    }
}

impl Default for Taken {
    fn default() -> (r: Self)
        ensures
            r@.len() == 0,
    {
        Taken::new()
    }
}

/// How often a connection is handed out.
pub open spec fn times_taken(mappings: Seq<Mapping>, server: BackendKeyData) -> nat
    decreases mappings.len(),
{
    if mappings.len() == 0 {
        0
    } else {
        times_taken(mappings.drop_last(), server) + if mappings.last().server == server {
            1nat
        } else {
            0
        }
    }
}

pub(crate) proof fn lemma_times_taken(a: Seq<Mapping>, b: Seq<Mapping>, server: BackendKeyData)
    ensures
        times_taken(a + b, server) == times_taken(a, server) + times_taken(b, server),
    decreases b.len(),
{
    if b.len() == 0 {
        assert(a + b == a);
    } else {
        assert((a + b).drop_last() == a + b.drop_last());
        lemma_times_taken(a, b.drop_last(), server);
    }
}

/// Taking a connection back lowers how often it is handed out by one, and no other one's.
pub(crate) proof fn lemma_times_without(
    mappings: Seq<Mapping>,
    server: BackendKeyData,
    other: BackendKeyData,
)
    requires
        serves(mappings, server),
    ensures
        times_taken(without(mappings, server), other) == times_taken(mappings, other) - if other
            == server {
            1int
        } else {
            0
        },
    decreases mappings.len(),
{
    let first = seq![mappings[0]];
    let rest = mappings.skip(1);
    assert(first + rest == mappings);
    lemma_times_taken(first, rest, other);
    assert(first.drop_last() == Seq::<Mapping>::empty());
    assert(times_taken(first.drop_last(), other) == 0);
    if mappings[0].server != server {
        let i = choose|i: int| 0 <= i < mappings.len() && (#[trigger] mappings[i]).server == server;
        assert(rest[i - 1].server == server);
        lemma_times_without(rest, server, other);
        lemma_times_taken(first, without(rest, server), other);
    }
}

/// Handing a connection out and taking it back leaves everyone else's connections as they were.
pub proof fn take_then_check_in(mappings: Seq<Mapping>, mapping: Mapping)
    requires
        !serves(mappings, mapping.server),
    ensures
        serves(mappings.push(mapping), mapping.server),
        without(mappings.push(mapping), mapping.server) == mappings,
        last_for(mappings.push(mapping), mapping.client) == Some(mapping.server),
{
    let all = mappings.push(mapping);
    let n = mappings.len() as int;
    assert(all[n].server == mapping.server);
    assert forall|j: int| 0 <= j < n implies (#[trigger] all[j]).server != all[n].server by {
        assert(all[j] == mappings[j]);
    }
    lemma_without(all, n);
    assert(all.remove(n) == mappings);
}

} // verus!
