//! Ballots of a motion and their weighted tally against the ledger.
use vstd::prelude::*;

use crate::ledger::Ledger;

verus! {

/// The accounts of a list of ballots, each seen as its characters.
pub open spec fn ids_view(v: Seq<String>) -> Seq<Seq<char>> {
    v.map_values(|s: String| s@)
}

/// The combined weight of a list of ballots; an account listed twice counts
/// twice.
pub open spec fn weight_sum(l: Ledger, s: Seq<Seq<char>>) -> int
    decreases s.len(),
{
    if s.len() == 0 {
        0
    } else {
        weight_sum(l, s.drop_last()) + l.weight(s.last())
    }
}

proof fn lemma_weight_sum_nonneg(l: Ledger, s: Seq<Seq<char>>)
    ensures
        weight_sum(l, s) >= 0,
    decreases s.len(),
{
    if s.len() > 0 {
        lemma_weight_sum_nonneg(l, s.drop_last());
    }
}

/// A weight as a 128-bit amount, held at the largest one when it does not fit.
/// Compared against a threshold, it decides as the exact weight does.
pub open spec fn saturate(x: int) -> u128 {
    if x > u128::MAX {
        u128::MAX
    } else {
        x as u128
    }
}

/// `new` is `old` with one ballot of `account` appended to the list of `choice`.
pub open spec fn ballot_added(old: Votes, new: Votes, account: String, choice: VoteChoice) -> bool {
    &&& new.accepting@ == if choice == VoteChoice::Accept {
        old.accepting@.push(account)
    } else {
        old.accepting@
    }
    &&& new.rejecting@ == if choice == VoteChoice::Reject {
        old.rejecting@.push(account)
    } else {
        old.rejecting@
    }
    &&& new.indifferent@ == if choice == VoteChoice::Indifferent {
        old.indifferent@.push(account)
    } else {
        old.indifferent@
    }
}

/// How an account votes on a motion.
#[derive(Debug, Clone, Copy, PartialEq, Eq, Structural)]
pub enum VoteChoice {
    Accept,
    Reject,
    Indifferent,
}

/// The ballots cast on a motion, by choice. Weights are read from the ledger
/// when the motion is tallied, not when the vote is cast.
pub struct Votes {
    pub accepting: Vec<String>,
    pub rejecting: Vec<String>,
    pub indifferent: Vec<String>,
}

/// Adds the weights of `ids` to `total`, holding at the largest amount.
fn add_weights(total: u128, ids: &Vec<String>, balances: &Ledger) -> (r: u128)
    requires
        balances.wf(),
    ensures
        r == saturate(total + weight_sum(*balances, ids_view(ids@))),
{
    let ghost s = ids_view(ids@);
    let mut acc: u128 = total;
    let mut i: usize = 0;
    while i < ids.len()
        invariant
            balances.wf(),
            i <= ids@.len(),
            s == ids_view(ids@),
            acc == saturate(total + weight_sum(*balances, s.take(i as int))),
        decreases ids@.len() - i,
    {
        let w = balances.weight_of(&ids[i]);
        assert(s.take(i + 1).drop_last() =~= s.take(i as int));
        assert(s.take(i + 1).last() == ids@[i as int]@);
        assert(weight_sum(*balances, s.take(i + 1)) == weight_sum(*balances, s.take(i as int))
            + w);
        proof {
            lemma_weight_sum_nonneg(*balances, s.take(i as int));
        }
        acc = acc.saturating_add(w);
        i = i + 1;
    }
    assert(s.take(i as int) =~= s);
    acc
}

impl Votes {
    /// The weight of every ballot cast, whatever its choice.
    pub open spec fn participated(&self, l: Ledger) -> int {
        weight_sum(l, ids_view(self.accepting@)) + weight_sum(l, ids_view(self.rejecting@))
            + weight_sum(l, ids_view(self.indifferent@))
    }

    /// The weight of the accepting ballots.
    pub open spec fn favorable(&self, l: Ledger) -> int {
        weight_sum(l, ids_view(self.accepting@))
    }

    /// No ballot cast yet.
    pub fn new() -> (r: Votes)
        ensures
            r.accepting@.len() == 0,
            r.rejecting@.len() == 0,
            r.indifferent@.len() == 0,
    {
        Votes { accepting: Vec::new(), rejecting: Vec::new(), indifferent: Vec::new() }
    }

    /// The participating weight, accepting, rejecting and indifferent together.
    pub fn total_votes(&self, balances: &Ledger) -> (r: u128)
        requires
            balances.wf(),
        ensures
            r == saturate(self.participated(*balances)),
            self.participated(*balances) >= 0,
    {
        proof {
            lemma_weight_sum_nonneg(*balances, ids_view(self.accepting@));
            lemma_weight_sum_nonneg(*balances, ids_view(self.rejecting@));
            lemma_weight_sum_nonneg(*balances, ids_view(self.indifferent@));
        }
        let a = add_weights(0, &self.accepting, balances);
        let b = add_weights(a, &self.rejecting, balances);
        add_weights(b, &self.indifferent, balances)
    }

    /// The favorable weight: that of the accepting ballots.
    pub fn favorable_votes(&self, balances: &Ledger) -> (r: u128)
        requires
            balances.wf(),
        ensures
            r == saturate(self.favorable(*balances)),
            self.favorable(*balances) >= 0,
    {
        proof {
            lemma_weight_sum_nonneg(*balances, ids_view(self.accepting@));
        }
        add_weights(0, &self.accepting, balances)
    }

    /// Records a ballot of `account_id`, appended to the list of its choice.
    pub fn cast(&mut self, account_id: &String, choice: VoteChoice)
        ensures
            ballot_added(*old(self), *final(self), *account_id, choice),
    {
        let id = account_id.clone();
        match choice {
            VoteChoice::Accept => self.accepting.push(id),
            VoteChoice::Reject => self.rejecting.push(id),
            VoteChoice::Indifferent => self.indifferent.push(id),
        }
    }
}

} // verus!
