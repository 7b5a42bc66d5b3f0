//! What the rules need to know of the Postgres wire protocol: identifiers, parameters and the
//! contents of server messages.

use crate::text::{owned, same, signed_text};
#[allow(unused_imports)]
use crate::text::signed_decimal;
use vstd::prelude::*;
use vstd::string::*;

verus! {

/// Identifier of a client or of a server connection.
#[derive(Clone, Copy, Debug, PartialEq, Eq, Hash, Structural)]
pub struct BackendKeyData {
    /// Process identifier.
    pub pid: i32,
    /// Cancellation secret.
    pub secret: i32,
}

impl Default for BackendKeyData {
    fn default() -> (r: Self)
        ensures
            r.pid == 0,
            r.secret == 0,
    {
        BackendKeyData { pid: 0, secret: 0 }
    }
}

impl BackendKeyData {
    /// How the identifier reads in messages.
    pub open spec fn shown(&self) -> Seq<char> {
        "pid="@ + signed_decimal(self.pid as int) + ", secret="@ + signed_decimal(
            self.secret as int,
        )
    }

    /// How the identifier reads in messages.
    pub fn to_string(&self) -> (r: String)
        ensures
            r@ == self.shown(),
    {
        let pid = signed_text(self.pid as i64);
        let secret = signed_text(self.secret as i64);
        let mut out = owned("pid=");
        out.append(pid.as_str());
        out.append(", secret=");
        out.append(secret.as_str());
        out
    }
}

/// A named setting of a session.
#[derive(Debug)]
pub struct Parameter {
    /// Name of the setting.
    pub name: String,
    /// Its value.
    pub value: String,
}

impl Clone for Parameter {
    fn clone(&self) -> (r: Self)
        ensures
            r == *self,
    {
        Parameter { name: self.name.clone(), value: self.value.clone() }
    }
}

impl Parameter {
    /// A setting from its name and value.
    pub fn new(name: &str, value: &str) -> (r: Self)
        ensures
            r.name@ == name@,
            r.value@ == value@,
    {
        Parameter { name: owned(name), value: owned(value) }
    }
}

/// The value that a list of settings gives to a name: the last one written.
pub open spec fn lookup(params: Seq<Parameter>, name: Seq<char>) -> Option<Seq<char>>
    decreases params.len(),
{
    if params.len() == 0 {
        None
    } else if params.last().name@ == name {
        Some(params.last().value@)
    } else {
        lookup(params.drop_last(), name)
    }
}

/// No name is written twice.
pub open spec fn distinct_names(params: Seq<Parameter>) -> bool {
    forall|i: int, j: int|
        0 <= i < j < params.len() ==> #[trigger] params[i].name@ != #[trigger] params[j].name@
}

proof fn lemma_lookup_at(params: Seq<Parameter>, i: int)
    requires
        distinct_names(params),
        0 <= i < params.len(),
    ensures
        lookup(params, params[i].name@) == Some(params[i].value@),
    decreases params.len(),
{
    if i < params.len() - 1 {
        let short = params.drop_last();
        assert(short[i] == params[i]);
        assert(params.last().name@ != params[i].name@);
        assert forall|a: int, b: int| 0 <= a < b < short.len() implies #[trigger] short[a].name@
            != #[trigger] short[b].name@ by {
            assert(short[a] == params[a] && short[b] == params[b]);
        }
        lemma_lookup_at(short, i);
    }
}

proof fn lemma_lookup_absent(params: Seq<Parameter>, name: Seq<char>)
    ensures
        lookup(params, name) is None <==> forall|i: int|
            0 <= i < params.len() ==> #[trigger] params[i].name@ != name,
    decreases params.len(),
{
    if params.len() > 0 {
        lemma_lookup_absent(params.drop_last(), name);
        if lookup(params, name) is None {
            assert forall|i: int| 0 <= i < params.len() implies #[trigger] params[i].name@
                != name by {
                if i < params.len() - 1 {
                    assert(params.drop_last()[i] == params[i]);
                }
            }
        } else if params.last().name@ == name {
            assert(params[params.len() - 1].name@ == name);
        } else {
            let i = choose|i: int|
                0 <= i < params.drop_last().len() && #[trigger] params.drop_last()[i].name@
                    == name;
            assert(params[i].name@ == name);
        }
    }
}

proof fn lemma_lookup_push(params: Seq<Parameter>, p: Parameter, name: Seq<char>)
    ensures
        lookup(params.push(p), name) == if p.name@ == name {
            Some(p.value@)
        } else {
            lookup(params, name)
        },
{
    assert(params.push(p).drop_last() == params);
}

proof fn lemma_lookup_update(params: Seq<Parameter>, i: int, p: Parameter, name: Seq<char>)
    requires
        distinct_names(params),
        0 <= i < params.len(),
        params[i].name@ == p.name@,
    ensures
        distinct_names(params.update(i, p)),
        lookup(params.update(i, p), name) == if p.name@ == name {
            Some(p.value@)
        } else {
            lookup(params, name)
        },
    decreases params.len(),
{
    let after = params.update(i, p);
    assert forall|a: int, b: int| 0 <= a < b < after.len() implies #[trigger] after[a].name@
        != #[trigger] after[b].name@ by {
        assert(params[a].name@ != params[b].name@);
    }
    if i == params.len() - 1 {
        assert(after.drop_last() == params.drop_last());
    } else {
        assert(after.drop_last() == params.drop_last().update(i, p));
        assert(after.last() == params.last());
        assert(params[i].name@ != params[params.len() - 1].name@);
        lemma_lookup_update(params.drop_last(), i, p, name);
    }
}

/// Write a setting into a list, over the value of the same name if there is one.
fn write(params: &mut Vec<Parameter>, name: String, value: String)
    requires
        distinct_names(old(params)@),
    ensures
        distinct_names(final(params)@),
        forall|n: Seq<char>| #[trigger]
            lookup(final(params)@, n) == if n == name@ {
                Some(value@)
            } else {
                lookup(old(params)@, n)
            },
{
    let ghost before = params@;
    let mut i: usize = 0;
    while i < params.len()
        invariant
            i <= params@.len(),
            params@ == before,
            before == old(params)@,
            distinct_names(before),
            forall|j: int| 0 <= j < i ==> (#[trigger] before[j]).name@ != name@,
        decreases params@.len() - i,
    {
        if same(params[i].name.as_str(), name.as_str()) {
            let p = Parameter { name, value };
            proof {
                assert forall|n: Seq<char>| #[trigger]
                    lookup(before.update(i as int, p), n) == if n == p.name@ {
                        Some(p.value@)
                    } else {
                        lookup(before, n)
                    } by {
                    lemma_lookup_update(before, i as int, p, n);
                }
                lemma_lookup_update(before, i as int, p, p.name@);
            }
            let ghost written = p;
            params.set(i, p);
            assert(params@ == before.update(i as int, written));
            return ;
        }
        i = i + 1;
    }
    let p = Parameter { name, value };
    proof {
        assert forall|n: Seq<char>| #[trigger]
            lookup(before.push(p), n) == if n == p.name@ {
                Some(p.value@)
            } else {
                lookup(before, n)
            } by {
            lemma_lookup_push(before, p, n);
        }
    }
    params.push(p);
}

/// Settings of a session, with those that an open transaction has changed kept apart until it
/// ends.
#[derive(Debug)]
pub struct Parameters {
    /// Settings in force outside of a transaction.
    pub params: Vec<Parameter>,
    /// Settings changed by the open transaction.
    pub transaction: Vec<Parameter>,
}

/// The name is in the list.
pub open spec fn lists(names: Seq<String>, name: Seq<char>) -> bool {
    exists|i: int| 0 <= i < names.len() && (#[trigger] names[i])@ == name
}

fn listed(names: &Vec<String>, name: &str) -> (r: bool)
    ensures
        r == lists(names@, name@),
{
    for i in 0..names.len()
        invariant
            forall|j: int| 0 <= j < i ==> (#[trigger] names@[j])@ != name@,
    {
        if same(names[i].as_str(), name) {
            assert(names@[i as int]@ == name@);
            return true;
        }
    }
    false
}

/// The settings are those of `all` outside of a transaction, but for the ones that are fixed for a
/// session.
pub open spec fn tracks(settings: Parameters, all: Parameters, fixed: Seq<String>) -> bool {
    &&& settings.transaction@.len() == 0
    &&& forall|n: Seq<char>| #[trigger]
        settings.value(n) == if lists(fixed, n) {
            None
        } else {
            all.value(n)
        }
}

impl Parameters {
    /// No name occurs twice.
    pub open spec fn wf(&self) -> bool {
        distinct_names(self.params@) && distinct_names(self.transaction@)
    }

    /// The value of a setting outside of a transaction.
    pub open spec fn value(&self, name: Seq<char>) -> Option<Seq<char>> {
        lookup(self.params@, name)
    }

    /// The value that the open transaction gave to a setting.
    pub open spec fn pending(&self, name: Seq<char>) -> Option<Seq<char>> {
        lookup(self.transaction@, name)
    }

    /// Nothing is set.
    pub open spec fn cleared(&self) -> bool {
        self.params@.len() == 0 && self.transaction@.len() == 0
    }

    /// No settings.
    pub fn new() -> (r: Self)
        ensures
            r.wf(),
            r.cleared(),
    {
        Parameters { params: Vec::new(), transaction: Vec::new() }
    }

    /// Number of settings outside of a transaction.
    pub fn len(&self) -> (r: usize)
        ensures
            r == self.params@.len(),
    {
        self.params.len()
    }

    /// There are no settings outside of a transaction.
    pub fn is_empty(&self) -> (r: bool)
        ensures
            r == (self.params@.len() == 0),
    {
        self.params.is_empty()
    }

    /// Change a setting.
    pub fn insert(&mut self, name: String, value: String)
        requires
            old(self).wf(),
        ensures
            final(self).wf(),
            final(self).transaction == old(self).transaction,
            forall|n: Seq<char>| #[trigger]
                final(self).value(n) == if n == name@ {
                    Some(value@)
                } else {
                    old(self).value(n)
                },
    {
        write(&mut self.params, name, value);
        assert forall|n: Seq<char>| #[trigger]
            self.value(n) == if n == name@ {
                Some(value@)
            } else {
                old(self).value(n)
            } by {
            assert(self.value(n) == lookup(self.params@, n));
        }
    }

    /// Change a setting inside the open transaction.
    pub fn insert_transaction(&mut self, name: String, value: String)
        requires
            old(self).wf(),
        ensures
            final(self).wf(),
            final(self).params == old(self).params,
            forall|n: Seq<char>| #[trigger]
                final(self).pending(n) == if n == name@ {
                    Some(value@)
                } else {
                    old(self).pending(n)
                },
    {
        write(&mut self.transaction, name, value);
        assert forall|n: Seq<char>| #[trigger]
            self.pending(n) == if n == name@ {
                Some(value@)
            } else {
                old(self).pending(n)
            } by {
            assert(self.pending(n) == lookup(self.transaction@, n));
        }
    }

    /// The value of a setting.
    pub fn get(&self, name: &str) -> (r: Option<&str>)
        requires
            self.wf(),
        ensures
            match r {
                Some(v) => self.value(name@) == Some(v@),
                None => self.value(name@) is None,
            },
    {
        for i in 0..self.params.len()
            invariant
                self.wf(),
                forall|j: int| 0 <= j < i ==> (#[trigger] self.params@[j]).name@ != name@,
        {
            if same(self.params[i].name.as_str(), name) {
                proof {
                    lemma_lookup_at(self.params@, i as int);
                }
                return Some(self.params[i].value.as_str());
            }
        }
        proof {
            lemma_lookup_absent(self.params@, name@);
        }
        None
    }

    /// The value of a setting, or `default` where it is not set.
    pub fn get_default<'a>(&'a self, name: &str, default: &'a str) -> (r: &'a str)
        requires
            self.wf(),
        ensures
            r@ == match self.value(name@) {
                Some(v) => v,
                None => default@,
            },
    {
        match self.get(name) {
            Some(v) => v,
            None => default,
        }
    }

    /// Forget every setting.
    pub fn clear(&mut self)
        ensures
            final(self).wf(),
            final(self).cleared(),
    {
        self.params.clear();
        self.transaction.clear();
    }

    /// Forget what the open transaction changed.
    pub fn rollback(&mut self)
        requires
            old(self).wf(),
        ensures
            final(self).wf(),
            final(self).params == old(self).params,
            final(self).transaction@.len() == 0,
    {
        self.transaction.clear();
    }

    /// Keep what the open transaction changed.
    pub fn commit(&mut self)
        requires
            old(self).wf(),
        ensures
            final(self).wf(),
            final(self).transaction@.len() == 0,
            forall|n: Seq<char>| #[trigger]
                final(self).value(n) == match old(self).pending(n) {
                    Some(v) => Some(v),
                    None => old(self).value(n),
                },
    {
        let ghost pending = self.transaction@;
        let ghost before = self.params@;
        let mut i: usize = 0;
        while i < self.transaction.len()
            invariant
                i <= self.transaction@.len(),
                self.transaction@ == pending,
                self.wf(),
                forall|n: Seq<char>| #[trigger]
                    lookup(self.params@, n) == match lookup(pending.take(i as int), n) {
                        Some(v) => Some(v),
                        None => lookup(before, n),
                    },
            decreases self.transaction@.len() - i,
        {
            let p = self.transaction[i].clone();
            proof {
                assert(pending.take(i + 1).drop_last() == pending.take(i as int));
                assert(pending.take(i + 1).last() == p);
            }
            write(&mut self.params, p.name, p.value);
            i = i + 1;
        }
        assert(pending.take(pending.len() as int) == pending);
        self.transaction.clear();
        assert forall|n: Seq<char>| #[trigger]
            self.value(n) == match old(self).pending(n) {
                Some(v) => Some(v),
                None => old(self).value(n),
            } by {
            assert(self.value(n) == lookup(self.params@, n));
            assert(old(self).pending(n) == lookup(pending, n));
        }
    }

    /// Take over what the open transaction of `other` changed.
    pub fn copy_in_transaction(&mut self, other: &Parameters)
        requires
            old(self).wf(),
            other.wf(),
        ensures
            final(self).wf(),
            final(self).params == old(self).params,
            forall|n: Seq<char>| #[trigger]
                final(self).pending(n) == match other.pending(n) {
                    Some(v) => Some(v),
                    None => old(self).pending(n),
                },
    {
        let ghost pending = other.transaction@;
        let ghost before = self.transaction@;
        let mut i: usize = 0;
        while i < other.transaction.len()
            invariant
                i <= other.transaction@.len(),
                other.transaction@ == pending,
                self.wf(),
                self.params == old(self).params,
                forall|n: Seq<char>| #[trigger]
                    lookup(self.transaction@, n) == match lookup(pending.take(i as int), n) {
                        Some(v) => Some(v),
                        None => lookup(before, n),
                    },
            decreases other.transaction@.len() - i,
        {
            let p = other.transaction[i].clone();
            proof {
                assert(pending.take(i + 1).drop_last() == pending.take(i as int));
                assert(pending.take(i + 1).last() == p);
            }
            write(&mut self.transaction, p.name, p.value);
            i = i + 1;
        }
        assert(pending.take(pending.len() as int) == pending);
        assert forall|n: Seq<char>| #[trigger]
            self.pending(n) == match other.pending(n) {
                Some(v) => Some(v),
                None => old(self).pending(n),
            } by {
            assert(self.pending(n) == lookup(self.transaction@, n));
            assert(old(self).pending(n) == lookup(before, n));
        }
    }

    /// The settings outside of a transaction that a connection can take over: all but those that are
    /// fixed for a session.
    pub fn without_fixed(&self, fixed: &Vec<String>) -> (r: Parameters)
        requires
            self.wf(),
        ensures
            r.wf(),
            tracks(r, *self, fixed@),
    {
        let mut out = Parameters::new();
        let ghost all = self.params@;
        assert(all.take(0) == Seq::<Parameter>::empty());
        for i in 0..self.params.len()
            invariant
                all == self.params@,
                out.wf(),
                out.transaction@.len() == 0,
                forall|n: Seq<char>| #[trigger]
                    out.value(n) == if lists(fixed@, n) {
                        None
                    } else {
                        lookup(all.take(i as int), n)
                    },
        {
            let param = &self.params[i];
            proof {
                assert(all.take(i + 1).drop_last() == all.take(i as int));
                assert(all.take(i + 1).last() == *param);
            }
            if !listed(fixed, param.name.as_str()) {
                out.insert(param.name.clone(), param.value.clone());
            }
        }
        assert(all.take(all.len() as int) == all);
        out
    }

    /// The two sessions agree on every setting outside of a transaction.
    pub fn identical(&self, other: &Parameters) -> (r: bool)
        requires
            self.wf(),
            other.wf(),
        ensures
            r <==> forall|n: Seq<char>| #[trigger] self.value(n) == other.value(n),
    {
        self.within(other) && other.within(self)
    }

    /// Every setting has the same value in `other`.
    fn within(&self, other: &Parameters) -> (r: bool)
        requires
            self.wf(),
            other.wf(),
        ensures
            r <==> forall|n: Seq<char>|
                (#[trigger] self.value(n)) is Some ==> self.value(n) == other.value(n),
    {
        for i in 0..self.params.len()
            invariant
                self.wf(),
                other.wf(),
                forall|j: int|
                    0 <= j < i ==> other.value((#[trigger] self.params@[j]).name@) == Some(
                        self.params@[j].value@,
                    ),
        {
            proof {
                lemma_lookup_at(self.params@, i as int);
            }
            assert(self.value(self.params@[i as int].name@) == Some(self.params@[i as int].value@));
            match other.get(self.params[i].name.as_str()) {
                Some(v) => {
                    if !same(v, self.params[i].value.as_str()) {
                        return false;
                    }
                },
                None => {
                    return false;
                },
            }
        }
        assert forall|n: Seq<char>| (#[trigger] self.value(n)) is Some implies self.value(n) == other.value(
            n,
        ) by {
            lemma_lookup_absent(self.params@, n);
            let j = choose|j: int|
                0 <= j < self.params@.len() && (#[trigger] self.params@[j]).name@ == n;
            lemma_lookup_at(self.params@, j);
        }
        true
    }
}

impl Default for Parameters {
    fn default() -> (r: Self)
        ensures
            r.wf(),
            r.cleared(),
    {
        Parameters::new()
    }
}

impl Clone for Parameters {
    fn clone(&self) -> (r: Self)
        ensures
            r.params@ == self.params@,
            r.transaction@ == self.transaction@,
    {
        Parameters { params: clone_all(&self.params), transaction: clone_all(&self.transaction) }
    }
}

/// A copy of a list of settings.
pub fn clone_all(params: &Vec<Parameter>) -> (r: Vec<Parameter>)
    ensures
        r@ == params@,
{
    let mut out: Vec<Parameter> = Vec::new();
    for i in 0..params.len()
        invariant
            out@ == params@.take(i as int),
    {
        out.push(params[i].clone());
        assert(out@ == params@.take(i + 1));
    }
    assert(params@.take(params@.len() as int) == params@);
    out
}

/// An error that the server reports.
#[derive(Debug)]
pub struct ErrorResponse {
    /// `ERROR`, `FATAL`, `PANIC` and the like.
    pub severity: String,
    /// SQLSTATE code.
    pub code: String,
    /// What went wrong.
    pub message: String,
}

impl Clone for ErrorResponse {
    fn clone(&self) -> (r: Self)
        ensures
            r == *self,
    {
        ErrorResponse {
            severity: self.severity.clone(),
            code: self.code.clone(),
            message: self.message.clone(),
        }
    }
}

} // verus!
