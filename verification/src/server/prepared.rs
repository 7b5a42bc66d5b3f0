//! Statements prepared on a server connection.

use crate::config::general::PreparedStatements as Level;
#[allow(unused_imports)]
use crate::text::views;
use crate::text::{owned, same};
use vstd::prelude::*;

verus! {

/// Statements prepared on a server connection, and where the exchange of messages stands.
#[derive(Debug)]
pub struct PreparedStatements {
    /// Names, oldest first, none twice.
    pub names: Vec<String>,
    /// How many may be kept.
    pub capacity: usize,
    /// How they are handled.
    pub level: Level,
    /// Every request has been answered.
    pub done: bool,
    /// The server has more to say.
    pub more_messages: bool,
    /// Rows are being copied to the server.
    pub copy_mode: bool,
    /// An error broke off the extended protocol.
    pub out_of_sync: bool,
    /// Bytes that the names take.
    pub memory_used: usize,
}

/// The name is in the list.
pub open spec fn has_name(names: Seq<String>, name: Seq<char>) -> bool {
    exists|i: int| 0 <= i < names.len() && (#[trigger] names[i])@ == name
}

/// No name is in the list twice.
pub open spec fn no_repeats(names: Seq<String>) -> bool {
    forall|i: int, j: int| 0 <= i < j < names.len() ==> (#[trigger] names[i])@ != (#[trigger] names[j])@
}

/// The names once another one was prepared: it comes last, unless it is among them already.
pub open spec fn with_name(names: Seq<Seq<char>>, name: Seq<char>) -> Seq<Seq<char>> {
    if names.contains(name) {
        names
    } else {
        names.push(name)
    }
}

/// The names once others were prepared, one after the other.
pub open spec fn with_names(names: Seq<Seq<char>>, more: Seq<Seq<char>>) -> Seq<Seq<char>>
    decreases more.len(),
{
    if more.len() == 0 {
        names
    } else {
        with_name(with_names(names, more.drop_last()), more.last())
    }
}

/// The list without this name, the others in the order in which they were.
pub open spec fn is_without(before: Seq<String>, after: Seq<String>, name: Seq<char>) -> bool {
    if has_name(before, name) {
        exists|i: int|
            0 <= i < before.len() && (#[trigger] before[i])@ == name && after == before.remove(i)
    } else {
        after == before
    }
}

proof fn lemma_has_name_views(names: Seq<String>, n: Seq<char>)
    ensures
        has_name(names, n) <==> views(names).contains(n),
{
    if has_name(names, n) {
        let i = choose|i: int| 0 <= i < names.len() && (#[trigger] names[i])@ == n;
        assert(views(names)[i] == n);
    }
    if views(names).contains(n) {
        let i = choose|i: int| 0 <= i < views(names).len() && views(names)[i] == n;
        assert(names[i]@ == n);
    }
}

proof fn lemma_has_name_take(names: Seq<String>, i: int, n: Seq<char>)
    requires
        0 <= i < names.len(),
    ensures
        has_name(names.take(i + 1), n) <==> has_name(names.take(i), n) || n == names[i]@,
{
    let short = names.take(i);
    let long = names.take(i + 1);
    if has_name(short, n) {
        let k = choose|k: int| 0 <= k < short.len() && (#[trigger] short[k])@ == n;
        assert(long[k]@ == n);
    }
    if n == names[i]@ {
        assert(long[i]@ == n);
    }
    if has_name(long, n) && n != names[i]@ {
        let k = choose|k: int| 0 <= k < long.len() && (#[trigger] long[k])@ == n;
        assert(short[k]@ == n);
    }
}

/// The oldest statements beyond the capacity were given up.
pub open spec fn trimmed(
    before: PreparedStatements,
    after: PreparedStatements,
    closed: Seq<String>,
) -> bool {
    &&& after == (PreparedStatements { names: after.names, ..before })
    &&& before.names@ == closed + after.names@
    &&& closed.len() == if before.names@.len() > before.capacity {
        before.names@.len() - before.capacity
    } else {
        0
    }
}

impl PreparedStatements {
    /// No name is kept twice.
    pub open spec fn wf(&self) -> bool {
        no_repeats(self.names@)
    }

    /// Nothing is prepared and nothing is going on.
    pub open spec fn is_new(&self) -> bool {
        &&& self.names@.len() == 0
        &&& self.capacity == usize::MAX
        &&& self.level == Level::Extended
        &&& self.done
        &&& !self.more_messages
        &&& !self.copy_mode
        &&& !self.out_of_sync
        &&& self.memory_used == 0
    }

    /// Nothing is prepared and nothing is going on.
    pub fn new() -> (r: Self)
        ensures
            r.wf(),
            r.is_new(),
    {
        PreparedStatements {
            names: Vec::new(),
            capacity: usize::MAX,
            level: Level::Extended,
            done: true,
            more_messages: false,
            copy_mode: false,
            out_of_sync: false,
            memory_used: 0,
        }
    }

    /// Every request has been answered.
    pub fn done(&self) -> (r: bool)
        ensures
            r == self.done,
    {
        self.done
    }

    /// The server has more to say.
    pub fn has_more_messages(&self) -> (r: bool)
        ensures
            r == self.more_messages,
    {
        self.more_messages
    }

    /// Rows are being copied to the server.
    pub fn in_copy_mode(&self) -> (r: bool)
        ensures
            r == self.copy_mode,
    {
        self.copy_mode
    }

    /// An error broke off the extended protocol.
    pub fn out_of_sync(&self) -> (r: bool)
        ensures
            r == self.out_of_sync,
    {
        self.out_of_sync
    }

    /// How many statements may be kept.
    pub fn capacity(&self) -> (r: usize)
        ensures
            r == self.capacity,
    {
        self.capacity
    }

    /// Change how many statements may be kept.
    pub fn set_capacity(&mut self, capacity: usize)
        ensures
            *final(self) == (PreparedStatements { capacity, ..*old(self) }),
    {
        self.capacity = capacity;
    }

    /// Change how statements are handled.
    pub fn set_prepared_statements_level(&mut self, level: Level)
        ensures
            *final(self) == (PreparedStatements { level, ..*old(self) }),
    {
        self.level = level;
    }

    /// How many statements are prepared.
    pub fn len(&self) -> (r: usize)
        ensures
            r == self.names@.len(),
    {
        self.names.len()
    }

    /// Bytes that the names take.
    pub fn memory_used(&self) -> (r: usize)
        ensures
            r == self.memory_used,
    {
        self.memory_used
    }

    /// The statement is prepared.
    pub fn contains(&self, name: &str) -> (r: bool)
        ensures
            r == has_name(self.names@, name@),
    {
        for i in 0..self.names.len()
            invariant
                forall|j: int| 0 <= j < i ==> (#[trigger] self.names@[j])@ != name@,
        {
            if same(self.names[i].as_str(), name) {
                return true;
            }
        }
        false
    }

    /// Remember that a statement is prepared. One that was not is the newest from now on.
    pub fn prepared(&mut self, name: &str)
        requires
            old(self).wf(),
        ensures
            final(self).wf(),
            *final(self) == (PreparedStatements { names: final(self).names, ..*old(self) }),
            forall|n: Seq<char>| #[trigger]
                has_name(final(self).names@, n) <==> n == name@ || has_name(old(self).names@, n),
            has_name(old(self).names@, name@) ==> final(self).names@ == old(self).names@,
            !has_name(old(self).names@, name@) ==> final(self).names@.len() == old(self).names@.len()
                + 1 && final(self).names@.drop_last() == old(self).names@
                && final(self).names@.last()@ == name@,
    {
        if !self.contains(name) {
            let ghost before = self.names@;
            self.names.push(owned(name));
            proof {
                assert(self.names@.drop_last() == before);
                assert forall|n: Seq<char>| #[trigger]
                    has_name(self.names@, n) <==> n == name@ || has_name(before, n) by {
                    if n == name@ {
                        assert(self.names@[before.len() as int]@ == n);
                    }
                    if has_name(before, n) {
                        let i = choose|i: int| 0 <= i < before.len() && (#[trigger] before[i])@ == n;
                        assert(self.names@[i]@ == n);
                    }
                    if has_name(self.names@, n) && n != name@ {
                        let i = choose|i: int|
                            0 <= i < self.names@.len() && (#[trigger] self.names@[i])@ == n;
                        assert(before[i]@ == n);
                    }
                }
            }
        }
    }

    /// Remember that statements are prepared. Those that were not are the newest from now on, in the
    /// order given.
    pub fn prepared_all(&mut self, names: &Vec<String>)
        requires
            old(self).wf(),
        ensures
            final(self).wf(),
            *final(self) == (PreparedStatements { names: final(self).names, ..*old(self) }),
            forall|n: Seq<char>| #[trigger]
                has_name(final(self).names@, n) <==> has_name(names@, n) || has_name(
                    old(self).names@,
                    n,
                ),
            old(self).names@.len() <= final(self).names@.len(),
            final(self).names@.take(old(self).names@.len() as int) == old(self).names@,
            views(final(self).names@) == with_names(views(old(self).names@), views(names@)),
    {
        let ghost before = self.names@;
        proof {
            assert(before.take(before.len() as int) == before);
            assert(views(names@).take(0) == Seq::<Seq<char>>::empty());
        }
        for i in 0..names.len()
            invariant
                self.wf(),
                before == old(self).names@,
                *self == (PreparedStatements { names: self.names, ..*old(self) }),
                forall|n: Seq<char>| #[trigger]
                    has_name(self.names@, n) <==> has_name(names@.take(i as int), n) || has_name(
                        before,
                        n,
                    ),
                before.len() <= self.names@.len(),
                self.names@.take(before.len() as int) == before,
                views(self.names@) == with_names(views(before), views(names@).take(i as int)),
        {
            let ghost held = self.names@;
            proof {
                assert(views(names@).take(i + 1).drop_last() == views(names@).take(i as int));
                assert(views(names@).take(i + 1).last() == names@[i as int]@);
                lemma_has_name_views(held, names@[i as int]@);
                assert forall|n: Seq<char>| #[trigger]
                    has_name(names@.take(i + 1), n) <==> has_name(names@.take(i as int), n) || n
                        == names@[i as int]@ by {
                    lemma_has_name_take(names@, i as int, n);
                }
            }
            self.prepared(names[i].as_str());
            proof {
                if !has_name(held, names@[i as int]@) {
                    assert(self.names@ == held.push(self.names@.last()));
                    assert(views(self.names@) == views(held).push(names@[i as int]@));
                }
                assert(self.names@.take(before.len() as int) == before);
            }
        }
        assert(names@.take(names@.len() as int) == names@);
        assert(views(names@).take(names@.len() as int) == views(names@));
    }

    /// Forget a statement. The others keep their order.
    pub fn remove(&mut self, name: &str) -> (r: bool)
        requires
            old(self).wf(),
        ensures
            final(self).wf(),
            r == has_name(old(self).names@, name@),
            *final(self) == (PreparedStatements { names: final(self).names, ..*old(self) }),
            forall|n: Seq<char>| #[trigger]
                has_name(final(self).names@, n) <==> n != name@ && has_name(old(self).names@, n),
            is_without(old(self).names@, final(self).names@, name@),
    {
        let ghost before = self.names@;
        let mut i: usize = 0;
        while i < self.names.len()
            invariant
                i <= self.names@.len(),
                *self == *old(self),
                self.names@ == before,
                no_repeats(before),
                forall|j: int| 0 <= j < i ==> (#[trigger] before[j])@ != name@,
            decreases self.names@.len() - i,
        {
            if same(self.names[i].as_str(), name) {
                let _ = self.names.remove(i);
                proof {
                    let after = self.names@;
                    assert(before[i as int]@ == name@);
                    assert(after == before.remove(i as int));
                    assert forall|n: Seq<char>| #[trigger]
                        has_name(after, n) <==> n != name@ && has_name(before, n) by {
                        if has_name(after, n) {
                            let k = choose|k: int|
                                0 <= k < after.len() && (#[trigger] after[k])@ == n;
                            let b = if k < i {
                                k
                            } else {
                                k + 1
                            };
                            assert(before[b] == after[k]);
                        }
                        if n != name@ && has_name(before, n) {
                            let k = choose|k: int|
                                0 <= k < before.len() && (#[trigger] before[k])@ == n;
                            let a = if k < i {
                                k
                            } else {
                                k - 1
                            };
                            assert(after[a] == before[k]);
                        }
                    }
                    assert forall|a: int, b: int| 0 <= a < b < after.len() implies (
                    #[trigger] after[a])@ != (#[trigger] after[b])@ by {
                        let x = if a < i {
                            a
                        } else {
                            a + 1
                        };
                        let y = if b < i {
                            b
                        } else {
                            b + 1
                        };
                        assert(before[x]@ != before[y]@);
                    }
                }
                return true;
            }
            i = i + 1;
        }
        false
    }

    /// Forget all statements.
    pub fn clear(&mut self)
        ensures
            final(self).wf(),
            final(self).names@.len() == 0,
            *final(self) == (PreparedStatements { names: final(self).names, ..*old(self) }),
    {
        self.names.clear();
    }

    /// Forget the oldest statements until no more than the capacity are left, and give back their
    /// names, oldest first.
    pub fn ensure_capacity(&mut self) -> (r: Vec<String>)
        requires
            old(self).wf(),
        ensures
            final(self).wf(),
            trimmed(*old(self), *final(self), r@),
    {
        let mut out: Vec<String> = Vec::new();
        let ghost before = self.names@;
        while self.names.len() > self.capacity
            invariant
                *self == (PreparedStatements { names: self.names, ..*old(self) }),
                before == old(self).names@,
                before == out@ + self.names@,
                no_repeats(before),
                out@.len() > 0 ==> self.names@.len() >= self.capacity,
            decreases self.names@.len(),
        {
            let ghost held = self.names@;
            let name = self.names.remove(0);
            out.push(name);
            assert(before == out@ + self.names@);
        }
        proof {
            assert forall|a: int, b: int| 0 <= a < b < self.names@.len() implies (
            #[trigger] self.names@[a])@ != (#[trigger] self.names@[b])@ by {
                assert(before[a + out@.len()] == self.names@[a]);
                assert(before[b + out@.len()] == self.names@[b]);
            }
        }
        out
    }
}

/// No more statements stay than may be kept, none is given up without need, and those that are given
/// up are older than those that stay. `i` is any statement.
pub proof fn the_oldest_statements_go(
    before: PreparedStatements,
    after: PreparedStatements,
    closed: Seq<String>,
    i: int,
)
    requires
        trimmed(before, after, closed),
        0 <= i < before.names@.len(),
    ensures
        after.names@.len() <= before.capacity,
        before.names@.len() <= before.capacity ==> closed.len() == 0 && after.names@
            == before.names@,
        closed.len() > 0 ==> after.names@.len() == before.capacity,
        i < before.names@.len() - before.capacity ==> closed[i] == before.names@[i],
        i >= before.names@.len() - before.capacity && before.names@.len() > before.capacity
            ==> after.names@[i - (before.names@.len() - before.capacity)] == before.names@[i],
        after.capacity == before.capacity && after.done == before.done,
{
    if before.names@.len() <= before.capacity {
        assert(closed =~= Seq::<String>::empty());
        assert(closed + after.names@ =~= after.names@);
    }
}

/// A statement that is prepared is the newest, and is there from then on; no other one is touched.
pub proof fn prepared_statements_are_the_newest(names: Seq<Seq<char>>, name: Seq<char>, i: int)
    ensures
        with_name(names, name).contains(name),
        0 <= i < names.len() ==> with_name(names, name)[i] == names[i],
        !names.contains(name) ==> with_name(names, name).last() == name && with_name(
            names,
            name,
        ).len() == names.len() + 1,
        names.contains(name) ==> with_name(names, name).len() == names.len(),
{
    if !names.contains(name) {
        assert(with_name(names, name)[names.len() as int] == name);
    }
}

} // verus!
