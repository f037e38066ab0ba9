//! Motions put to the owners: the sale of the asset, or a non-binding one.
use vstd::prelude::*;

use crate::votes::{ballot_added, VoteChoice, Votes};

verus! {

/// A proposal to sell the asset to `receiver_id` at `sale_price`.
pub struct SaleMotion {
    pub receiver_id: String,
    pub sale_price: u128,
    pub votes: Votes,
}

/// A non-binding motion: it is voted on, and settles nothing.
pub struct MiscMotion {
    pub initiator_id: String,
    pub description: String,
    pub votes: Votes,
}

pub enum Motion {
    Sale(SaleMotion),
    Misc(MiscMotion),
}

/// `new` is `old` with one more ballot, and otherwise the same motion.
pub open spec fn motion_voted(old: Motion, new: Motion, account: String, choice: VoteChoice) -> bool {
    match (old, new) {
        (Motion::Sale(a), Motion::Sale(b)) => {
            &&& b.receiver_id == a.receiver_id
            &&& b.sale_price == a.sale_price
            &&& ballot_added(a.votes, b.votes, account, choice)
        },
        (Motion::Misc(a), Motion::Misc(b)) => {
            &&& b.initiator_id == a.initiator_id
            &&& b.description == a.description
            &&& ballot_added(a.votes, b.votes, account, choice)
        },
        _ => false,
    }
}

impl Motion {
    /// Records a ballot on the motion, whatever its kind.
    pub fn cast(&mut self, account_id: &String, choice: VoteChoice)
        ensures
            motion_voted(*old(self), *final(self), *account_id, choice),
    {
        match self {
            Motion::Sale(m) => m.votes.cast(account_id, choice),
            Motion::Misc(m) => m.votes.cast(account_id, choice),
        }
    }
}

} // verus!
