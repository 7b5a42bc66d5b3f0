//! Which of several passwords to try first.

use crate::server::handshake::Verdict;
use vstd::prelude::*;

verus! {

/// What is known of the passwords of a server, in the order in which they are configured.
#[derive(Debug)]
pub struct Secrets {
    /// The server has not refused the password lately.
    pub valid: Vec<bool>,
}

/// The numbers of all passwords of this standing, in order.
pub open spec fn standing(valid: Seq<bool>, wanted: bool) -> Seq<usize>
    decreases valid.len(),
{
    if valid.len() == 0 {
        Seq::empty()
    } else {
        let before = standing(valid.drop_last(), wanted);
        if valid.last() == wanted {
            before.push((valid.len() - 1) as usize)
        } else {
            before
        }
    }
}

/// What is known of the passwords once one of them was tried.
pub open spec fn learned(valid: Seq<bool>, number: int, verdict: Verdict) -> Seq<bool> {
    match verdict {
        Verdict::Accept(_) => valid.update(number, true),
        Verdict::TryNext(_) | Verdict::Exhausted(_) => valid.update(number, false),
        Verdict::GiveUp(_) => valid,
    }
}

impl Secrets {
    /// So many passwords, of which nothing is known yet.
    pub fn new(count: usize) -> (r: Self)
        ensures
            r.valid@ == Seq::new(count as nat, |i: int| true),
    {
        let mut valid: Vec<bool> = Vec::new();
        for i in 0..count
            invariant
                valid@ == Seq::new(i as nat, |k: int| true),
        {
            valid.push(true);
            assert(valid@ == Seq::new((i + 1) as nat, |k: int| true));
        }
        Secrets { valid }
    }

    /// The order in which the passwords are tried: those that the server refused come last.
    pub fn order(&self) -> (r: Vec<usize>)
        ensures
            r@ == tried_in_order(self.valid@),
    {
        let mut first: Vec<usize> = Vec::new();
        let mut last: Vec<usize> = Vec::new();
        let ghost all = self.valid@;
        assert(all.take(0) == Seq::<bool>::empty());
        for i in 0..self.valid.len()
            invariant
                all == self.valid@,
                first@ == standing(all.take(i as int), true),
                last@ == standing(all.take(i as int), false),
        {
            proof {
                assert(all.take(i + 1).drop_last() == all.take(i as int));
                assert(all.take(i + 1).last() == all[i as int]);
            }
            if self.valid[i] {
                first.push(i);
            } else {
                last.push(i);
            }
        }
        assert(all.take(all.len() as int) == all);
        first.append(&mut last);
        first
    }

    /// Take note of whether the server accepted a password.
    pub fn tried(&mut self, number: usize, accepted: bool)
        requires
            number < old(self).valid@.len(),
        ensures
            final(self).valid@ == old(self).valid@.update(number as int, accepted),
    {
        self.valid.set(number, accepted);
    }

    /// Take note of what came of trying a password. Where the attempt was given up, nothing is
    /// learned of the password.
    pub fn note(&mut self, number: usize, verdict: &Verdict)
        requires
            number < old(self).valid@.len(),
        ensures
            final(self).valid@ == learned(old(self).valid@, number as int, *verdict),
    {
        match verdict {
            Verdict::Accept(_) => self.tried(number, true),
            Verdict::TryNext(_) | Verdict::Exhausted(_) => self.tried(number, false),
            Verdict::GiveUp(_) => {},
        }
    }
}

proof fn lemma_standing(valid: Seq<bool>, wanted: bool, i: int)
    requires
        0 <= i < valid.len() <= usize::MAX,
    ensures
        standing(valid, wanted).contains(i as usize) <==> valid[i] == wanted,
        forall|k: int|
            0 <= k < standing(valid, wanted).len() ==> (#[trigger] standing(valid, wanted)[k])
                < valid.len(),
        forall|a: int, b: int|
            0 <= a < b < standing(valid, wanted).len() ==> (#[trigger] standing(valid, wanted)[a])
                < (#[trigger] standing(valid, wanted)[b]),
    decreases valid.len(),
{
    let short = valid.drop_last();
    let last = valid.len() - 1;
    let s = standing(valid, wanted);
    let before = standing(short, wanted);
    if short.len() > 0 {
        lemma_standing(short, wanted, if i < last {
            i
        } else {
            0
        });
    }
    if i < last {
        assert(short[i] == valid[i]);
        if before.contains(i as usize) {
            let k = choose|k: int| 0 <= k < before.len() && before[k] == i as usize;
            assert(s[k] == i as usize);
        }
        if s.contains(i as usize) {
            let k = choose|k: int| 0 <= k < s.len() && s[k] == i as usize;
            if k < before.len() {
                assert(before[k] == i as usize);
            }
        }
    } else {
        if valid[i] == wanted {
            assert(s[s.len() - 1] == i as usize);
        }
        if s.contains(i as usize) && valid[i] != wanted {
            let k = choose|k: int| 0 <= k < s.len() && s[k] == i as usize;
            assert(before[k] < short.len());
        }
    }
}

/// Every password is tried, and none twice: it is among those that come first or among those that
/// come last, as the server has accepted or refused it, and both are in the order of the
/// configuration.
pub proof fn every_secret_is_tried(valid: Seq<bool>, i: int)
    requires
        0 <= i < valid.len() <= usize::MAX,
    ensures
        valid[i] ==> standing(valid, true).contains(i as usize) && !standing(valid, false).contains(
            i as usize,
        ),
        !valid[i] ==> standing(valid, false).contains(i as usize) && !standing(
            valid,
            true,
        ).contains(i as usize),
        forall|a: int, b: int|
            0 <= a < b < standing(valid, true).len() ==> (#[trigger] standing(valid, true)[a])
                < (#[trigger] standing(valid, true)[b]),
        forall|a: int, b: int|
            0 <= a < b < standing(valid, false).len() ==> (#[trigger] standing(valid, false)[a])
                < (#[trigger] standing(valid, false)[b]),
{
    lemma_standing(valid, true, i);
    lemma_standing(valid, false, i);
}

/// The order of all passwords that come first, then those that come last.
pub open spec fn tried_in_order(valid: Seq<bool>) -> Seq<usize> {
    standing(valid, true) + standing(valid, false)
}

/// A password that the server accepted is tried before every one that it refused; among passwords of
/// the same standing the order of the configuration decides.
pub proof fn accepted_passwords_come_first(valid: Seq<bool>, a: int, b: int)
    requires
        valid.len() <= usize::MAX,
        0 <= a < b < tried_in_order(valid).len(),
    ensures
        tried_in_order(valid)[a] < valid.len(),
        tried_in_order(valid)[b] < valid.len(),
        valid[tried_in_order(valid)[b] as int] ==> valid[tried_in_order(valid)[a] as int],
        valid[tried_in_order(valid)[a] as int] == valid[tried_in_order(valid)[b] as int]
            ==> tried_in_order(valid)[a] < tried_in_order(valid)[b],
{
    let (p, q) = (standing(valid, true), standing(valid, false));
    let all = tried_in_order(valid);
    if valid.len() > 0 {
        lemma_standing(valid, true, 0);
        lemma_standing(valid, false, 0);
        assert forall|k: int| 0 <= k < p.len() implies valid[#[trigger] p[k] as int] by {
            lemma_standing(valid, true, p[k] as int);
            assert(p.contains(p[k]));
        }
        assert forall|k: int| 0 <= k < q.len() implies !valid[#[trigger] q[k] as int] by {
            lemma_standing(valid, false, q[k] as int);
            assert(q.contains(q[k]));
        }
        if b < p.len() {
            assert(all[a] == p[a] && all[b] == p[b]);
        } else if a < p.len() {
            assert(all[a] == p[a] && all[b] == q[b - p.len()]);
        } else {
            assert(all[a] == q[a - p.len()] && all[b] == q[b - p.len()]);
        }
    }
}

/// Only the server's word on a password changes what is known of it, and of no other one: a right
/// password is good, a wrong one is not, and a failure of another kind says nothing.
pub proof fn the_server_judges_passwords(valid: Seq<bool>, number: int, verdict: Verdict, i: int)
    requires
        0 <= number < valid.len(),
        0 <= i < valid.len(),
    ensures
        learned(valid, number, verdict).len() == valid.len(),
        i != number || verdict is GiveUp ==> learned(valid, number, verdict)[i] == valid[i],
        i == number && !(verdict is GiveUp) ==> (learned(valid, number, verdict)[i] <==> verdict
            is Accept),
{
}

} // verus!
