//! The contract: registration, sale motions, settlement of the asset hand-off,
//! cashout of the proceeds, and share transfers.
//!
//! Each entry point takes the calling account and the attached payment as
//! plain values. What the runtime must then do (pay an account, hand the asset
//! over) comes back in the result.
use vstd::prelude::*;

use crate::error::FungifierError;
use crate::keyed::{
    all_keys_unique, find_key, keyed_view, keys_unique, lemma_lookup_push, lemma_lookup_remove,
    lemma_lookup_update, lookup,
};
use crate::ledger::{sum_balances, Ledger};
use crate::motion::{motion_voted, Motion, SaleMotion};
use crate::votes::{VoteChoice, Votes};

verus! {

/// The exact payment that registration takes.
pub const REGISTRATION_DEPOSIT: u128 = 1_000_000_000_000_000_000_000;

/// The exact payment that opening a motion takes; it is refunded when the
/// motion is withdrawn or its sale completes.
pub const MOTION_DEPOSIT: u128 = 1_000_000_000_000_000_000_000;

/// The fixed-point scale of an owner's share of the proceeds.
pub const PRECISION: u128 = 1_000_000;

/// The payout of an owner holding `balance` of `supply` shares, from
/// `proceeds`: `proceeds * share / PRECISION` with
/// `share = balance * PRECISION / supply`, both rounded down. `None` where the
/// supply is zero or a product does not fit in 128 bits.
pub open spec fn payout(proceeds: u128, balance: u128, supply: u128) -> Option<u128> {
    if supply == 0 || balance * PRECISION > u128::MAX {
        None
    } else {
        let share = (balance * PRECISION) / (supply as int);
        if proceeds * share > u128::MAX {
            None
        } else {
            Some(((proceeds * share) / (PRECISION as int)) as u128)
        }
    }
}

/// An owner whose balance is zero is paid nothing, wherever an owner of the
/// same ledger can be paid at all: a second cashout pays zero.
pub proof fn lemma_zero_balance_pays_nothing(proceeds: u128, balance: u128, supply: u128)
    requires
        payout(proceeds, balance, supply) is Some,
    ensures
        payout(proceeds, 0, supply) == Some(0u128),
{
    assert(0u128 * PRECISION == 0);
    assert(0int / (supply as int) == 0);
    assert(proceeds * 0 == 0);
}

/// A payment the runtime must make out of the contract's balance.
pub struct Payment {
    pub receiver_id: String,
    pub amount: u128,
}

/// The request to hand the asset over to `new_owner`; its completion is
/// reported back through `Fungifier::resolve_sale`.
pub struct AssetHandOff {
    pub nft_contract_id: String,
    pub nft_token_id: String,
    pub new_owner: String,
}

/// What finalizing a sale motion decided.
pub enum SaleOutcome {
    /// The ballots cast weigh less than the participation threshold.
    ParticipationNotMet,
    /// The accepting ballots weigh less than the acceptance threshold.
    AcceptanceNotMet,
    /// The sale is approved and the payment captured: the asset is to be
    /// handed over.
    HandOff(AssetHandOff),
}

/// How a pending sale was settled.
pub struct Settlement {
    /// Whether the asset changed hands.
    pub sold: bool,
    /// The refund to the buyer: the whole captured payment when the hand-off
    /// failed, the motion deposit when it succeeded.
    pub refund: Payment,
}

/// The whole state of a contract as plain values, for storage.
pub struct FungifierParts {
    pub deployer_id: String,
    pub nft_contract_id: String,
    pub nft_token_id: String,
    pub total_supply: u128,
    pub owners: Vec<(String, u128)>,
    pub dao_participation_threshold: u128,
    pub dao_acceptance_threshold: u128,
    pub motions: Vec<(String, Motion)>,
    pub cashout_amount: Option<u128>,
    pub sale_in_progress_id: Option<String>,
    pub sold_motion_id: Option<String>,
}

/// The parts form a contract: accounts and motion identifiers are unique, the
/// balances fit in the supply, and a pending sale has its payment captured
/// and its sale motion stored.
pub open spec fn parts_valid(p: FungifierParts) -> bool {
    &&& keys_unique(keyed_view(p.owners@))
    &&& sum_balances(keyed_view(p.owners@)) <= p.total_supply
    &&& keys_unique(keyed_view(p.motions@))
    &&& match p.sale_in_progress_id {
        Some(id) => p.cashout_amount is Some && lookup(keyed_view(p.motions@), id@) matches Some(
            Motion::Sale(_),
        ),
        None => true,
    }
}

pub struct Fungifier {
    deployer_id: String,
    nft_contract_id: String,
    nft_token_id: String,
    ft_owners: Ledger,
    dao_participation_threshold: u128,
    dao_acceptance_threshold: u128,
    motions: Vec<(String, Motion)>,
    cashout_amount: Option<u128>,
    sale_in_progress_id: Option<String>,
    sold_motion_id: Option<String>,
}

impl Fungifier {
    pub closed spec fn ledger(&self) -> Ledger {
        self.ft_owners
    }

    pub closed spec fn motions(&self) -> Seq<(Seq<char>, Motion)> {
        keyed_view(self.motions@)
    }

    /// The motion stored under an identifier.
    pub open spec fn motion(&self, id: Seq<char>) -> Option<Motion> {
        lookup(self.motions(), id)
    }

    /// The captured sale payment; set from an approved finalize on, and for
    /// good once the hand-off succeeds.
    pub closed spec fn proceeds(&self) -> Option<u128> {
        self.cashout_amount
    }

    /// The motion whose hand-off is awaiting its result.
    pub closed spec fn pending(&self) -> Option<Seq<char>> {
        match self.sale_in_progress_id {
            Some(id) => Some(id@),
            None => None,
        }
    }

    pub closed spec fn deployer(&self) -> Seq<char> {
        self.deployer_id@
    }

    pub closed spec fn nft_contract(&self) -> Seq<char> {
        self.nft_contract_id@
    }

    pub closed spec fn nft_token(&self) -> Seq<char> {
        self.nft_token_id@
    }

    pub closed spec fn participation_threshold(&self) -> u128 {
        self.dao_participation_threshold
    }

    pub closed spec fn acceptance_threshold(&self) -> u128 {
        self.dao_acceptance_threshold
    }

    /// The asset has been handed over: the contract is done with sales.
    pub open spec fn is_sold(&self) -> bool {
        self.proceeds() is Some && self.pending() is None
    }

    /// The motion whose sale completed; it can no longer be withdrawn.
    pub closed spec fn sold_motion(&self) -> Option<Seq<char>> {
        match self.sold_motion_id {
            Some(id) => Some(id@),
            None => None,
        }
    }

    /// The configuration fixed at construction is the same in both.
    pub open spec fn same_config(&self, other: &Fungifier) -> bool {
        &&& self.deployer() == other.deployer()
        &&& self.nft_contract() == other.nft_contract()
        &&& self.nft_token() == other.nft_token()
        &&& self.ledger().supply() == other.ledger().supply()
        &&& self.participation_threshold() == other.participation_threshold()
        &&& self.acceptance_threshold() == other.acceptance_threshold()
    }

    /// Everything but the settlement state (captured payment, pending sale,
    /// sold motion) is the same in both.
    pub open spec fn same_but_settlement(&self, other: &Fungifier) -> bool {
        &&& self.same_config(other)
        &&& self.ledger() == other.ledger()
        &&& self.motions() == other.motions()
    }

    /// Everything but the ledger's balances is the same in both.
    pub open spec fn same_but_ledger(&self, other: &Fungifier) -> bool {
        &&& self.same_config(other)
        &&& self.motions() == other.motions()
        &&& self.proceeds() == other.proceeds()
        &&& self.pending() == other.pending()
        &&& self.sold_motion() == other.sold_motion()
    }

    /// Everything but the motion store is the same in both.
    pub open spec fn same_but_motions(&self, other: &Fungifier) -> bool {
        &&& self.same_config(other)
        &&& self.ledger() == other.ledger()
        &&& self.proceeds() == other.proceeds()
        &&& self.pending() == other.pending()
        &&& self.sold_motion() == other.sold_motion()
    }

    /// The ledger is well formed, motion identifiers are unique, and a pending
    /// sale has its payment captured and its sale motion in the store.
    pub closed spec fn wf(&self) -> bool {
        &&& self.ft_owners.wf()
        &&& keys_unique(self.motions())
        &&& match self.sale_in_progress_id {
            Some(id) => self.cashout_amount is Some && self.motion(id@) matches Some(
                Motion::Sale(_),
            ),
            None => true,
        }
    }

    /// The shares recorded in the ledger never exceed the total supply.
    pub proof fn lemma_shares_within_supply(&self)
        requires
            self.wf(),
        ensures
            0 <= self.ledger().recorded_total() <= self.ledger().supply(),
    {
        self.ft_owners.lemma_within_supply();
    }

    /// Once the asset is sold, finalizing any sale motion by its receiver with
    /// a sufficient payment is refused as already sold.
    pub proof fn lemma_sold_refuses_finish(&self, caller: Seq<char>, deposit: u128, id: Seq<char>)
        requires
            self.is_sold(),
            self.motion(id) matches Some(Motion::Sale(m)) && m.receiver_id@ == caller && deposit
                > m.sale_price,
        ensures
            self.finish_refusal(caller, deposit, id) == Some(FungifierError::AlreadySold),
    {
    }

    /// The contract holds exactly the state that `p` lists.
    pub open spec fn holds_parts(&self, p: FungifierParts) -> bool {
        &&& self.deployer() == p.deployer_id@
        &&& self.nft_contract() == p.nft_contract_id@
        &&& self.nft_token() == p.nft_token_id@
        &&& self.ledger().supply() == p.total_supply
        &&& self.ledger().entries() == keyed_view(p.owners@)
        &&& self.participation_threshold() == p.dao_participation_threshold
        &&& self.acceptance_threshold() == p.dao_acceptance_threshold
        &&& self.motions() == keyed_view(p.motions@)
        &&& self.proceeds() == p.cashout_amount
        &&& self.pending() == match p.sale_in_progress_id {
            Some(id) => Some(id@),
            None => None,
        }
        &&& self.sold_motion() == match p.sold_motion_id {
            Some(id) => Some(id@),
            None => None,
        }
    }

    /// Rebuilds a contract from stored parts, refusing parts that do not form
    /// one.
    pub fn from_parts(p: FungifierParts) -> (r: Option<Fungifier>)
        ensures
            r is Some <==> parts_valid(p),
            r matches Some(f) ==> f.wf() && f.holds_parts(p),
    {
        if !all_keys_unique(&p.motions) {
            return None;
        }
        let pending_ok = match &p.sale_in_progress_id {
            None => true,
            Some(id) => p.cashout_amount.is_some() && match find_key(&p.motions, id) {
                Some(i) => match &p.motions[i].1 {
                    Motion::Sale(_) => true,
                    Motion::Misc(_) => false,
                },
                None => false,
            },
        };
        if !pending_ok {
            return None;
        }
        let ghost owners = p.owners;
        let ft_owners = match Ledger::from_entries(p.total_supply, p.owners) {
            Some(l) => l,
            None => return None,
        };
        Some(
            Fungifier {
                deployer_id: p.deployer_id,
                nft_contract_id: p.nft_contract_id,
                nft_token_id: p.nft_token_id,
                ft_owners,
                dao_participation_threshold: p.dao_participation_threshold,
                dao_acceptance_threshold: p.dao_acceptance_threshold,
                motions: p.motions,
                cashout_amount: p.cashout_amount,
                sale_in_progress_id: p.sale_in_progress_id,
                sold_motion_id: p.sold_motion_id,
            },
        )
    }

    /// The state of the contract as plain values, for storage.
    pub fn into_parts(self) -> (r: FungifierParts)
        requires
            self.wf(),
        ensures
            parts_valid(r),
            self.holds_parts(r),
    {
        proof {
            self.ft_owners.lemma_within_supply();
        }
        let (total_supply, owners) = self.ft_owners.into_entries();
        FungifierParts {
            deployer_id: self.deployer_id,
            nft_contract_id: self.nft_contract_id,
            nft_token_id: self.nft_token_id,
            total_supply,
            owners,
            dao_participation_threshold: self.dao_participation_threshold,
            dao_acceptance_threshold: self.dao_acceptance_threshold,
            motions: self.motions,
            cashout_amount: self.cashout_amount,
            sale_in_progress_id: self.sale_in_progress_id,
            sold_motion_id: self.sold_motion_id,
        }
    }

    /// A contract with no owner registered, no motion and no sale.
    pub fn init(
        deployer_id: String,
        nft_contract_id: String,
        nft_token_id: String,
        total_supply: u128,
        dao_participation_threshold: u128,
        dao_acceptance_threshold: u128,
    ) -> (r: Fungifier)
        ensures
            r.wf(),
            r.deployer() == deployer_id@,
            r.nft_contract() == nft_contract_id@,
            r.nft_token() == nft_token_id@,
            r.ledger().supply() == total_supply,
            r.ledger().recorded_total() == 0,
            forall|a: Seq<char>| #[trigger] r.ledger().balance(a) is None,
            r.participation_threshold() == dao_participation_threshold,
            r.acceptance_threshold() == dao_acceptance_threshold,
            forall|id: Seq<char>| #[trigger] r.motion(id) is None,
            r.proceeds() is None,
            r.pending() is None,
            r.sold_motion() is None,
    {
        let r = Fungifier {
            deployer_id,
            nft_contract_id,
            nft_token_id,
            ft_owners: Ledger::new(total_supply),
            dao_participation_threshold,
            dao_acceptance_threshold,
            motions: Vec::new(),
            cashout_amount: None,
            sale_in_progress_id: None,
            sold_motion_id: None,
        };
        assert(r.motions() =~= Seq::empty());
        r
    }

    /// Registers the caller with a balance of zero, against the exact
    /// registration deposit. An account registers once: its entry is then
    /// changed only by transfers and cashout.
    pub fn register(&mut self, caller: &String, attached_deposit: u128) -> (r: Result<
        (),
        FungifierError,
    >)
        requires
            old(self).wf(),
        ensures
            final(self).wf(),
            r == if attached_deposit != REGISTRATION_DEPOSIT {
                Err::<(), FungifierError>(FungifierError::InvalidDeposit)
            } else if old(self).ledger().balance(caller@) is Some {
                Err(FungifierError::AlreadyRegistered)
            } else {
                Ok(())
            },
            r is Err ==> *final(self) == *old(self),
            r is Ok ==> {
                &&& final(self).same_but_ledger(old(self))
                &&& final(self).ledger().recorded_total() == old(self).ledger().recorded_total()
                &&& forall|a: Seq<char>| #[trigger]
                    final(self).ledger().balance(a) == if a == caller@ {
                        Some(0u128)
                    } else {
                        old(self).ledger().balance(a)
                    }
            },
            old(self).is_sold() ==> final(self).is_sold() && final(self).proceeds() == old(
                self,
            ).proceeds(),
    {
        if attached_deposit != REGISTRATION_DEPOSIT {
            return Err(FungifierError::InvalidDeposit);
        }
        if self.ft_owners.balance_of(caller).is_ok() {
            return Err(FungifierError::AlreadyRegistered);
        }
        self.ft_owners.register(caller);
        Ok(())
    }

    /// Assigns unassigned shares to a registered account; only the deployer
    /// may do so.
    pub fn allocate_shares(&mut self, caller: &String, account_id: &String, amount: u128) -> (r:
        Result<(), FungifierError>)
        requires
            old(self).wf(),
        ensures
            final(self).wf(),
            r == if caller@ != old(self).deployer() {
                Err::<(), FungifierError>(FungifierError::NotAuthorized)
            } else if old(self).ledger().balance(account_id@) is None {
                Err(FungifierError::NotRegistered)
            } else if old(self).ledger().recorded_total() + amount > old(self).ledger().supply() {
                Err(FungifierError::ExceedsSupply)
            } else {
                Ok(())
            },
            r is Err ==> *final(self) == *old(self),
            r is Ok ==> {
                &&& caller@ == old(self).deployer()
                &&& old(self).ledger().balance(account_id@) is Some
                &&& final(self).same_but_ledger(old(self))
                &&& final(self).ledger().recorded_total() == old(self).ledger().recorded_total()
                    + amount
                &&& forall|a: Seq<char>| #[trigger]
                    final(self).ledger().balance(a) == if a == account_id@ {
                        Some((old(self).ledger().weight(a) + amount) as u128)
                    } else {
                        old(self).ledger().balance(a)
                    }
            },
            old(self).is_sold() ==> final(self).is_sold() && final(self).proceeds() == old(
                self,
            ).proceeds(),
    {
        if *caller != self.deployer_id {
            return Err(FungifierError::NotAuthorized);
        }
        self.ft_owners.allocate(account_id, amount)
    }

    /// Opens a sale of the asset to the caller at `sale_price`, under an
    /// identifier not in use, against the exact motion deposit.
    pub fn init_sell_motion(
        &mut self,
        caller: &String,
        attached_deposit: u128,
        sale_price: u128,
        motion_id: String,
    ) -> (r: Result<(), FungifierError>)
        requires
            old(self).wf(),
        ensures
            final(self).wf(),
            r == if attached_deposit != MOTION_DEPOSIT {
                Err::<(), FungifierError>(FungifierError::InvalidDeposit)
            } else if old(self).motion(motion_id@) is Some {
                Err(FungifierError::DuplicateMotionId)
            } else {
                Ok(())
            },
            r is Err ==> *final(self) == *old(self),
            r is Ok ==> {
                &&& final(self).same_but_motions(old(self))
                &&& final(self).motion(motion_id@) matches Some(Motion::Sale(m)) && m.receiver_id
                    == *caller && m.sale_price == sale_price && m.votes.accepting@.len() == 0
                    && m.votes.rejecting@.len() == 0 && m.votes.indifferent@.len() == 0
                &&& forall|id: Seq<char>|
                    id != motion_id@ ==> #[trigger] final(self).motion(id) == old(self).motion(id)
            },
            old(self).is_sold() ==> final(self).is_sold() && final(self).proceeds() == old(
                self,
            ).proceeds(),
    {
        if attached_deposit != MOTION_DEPOSIT {
            return Err(FungifierError::InvalidDeposit);
        }
        if find_key(&self.motions, &motion_id).is_some() {
            return Err(FungifierError::DuplicateMotionId);
        }
        let ghost s = self.motions();
        let motion = Motion::Sale(
            SaleMotion { receiver_id: caller.clone(), sale_price, votes: Votes::new() },
        );
        proof {
            lemma_lookup_push(s, motion_id@, motion);
        }
        self.motions.push((motion_id, motion));
        assert(self.motions() =~= s.push((motion_id@, motion)));
        Ok(())
    }

    /// Records the caller's ballot on a motion.
    pub fn cast_vote(&mut self, caller: &String, motion_id: &String, choice: VoteChoice) -> (r:
        Result<(), FungifierError>)
        requires
            old(self).wf(),
        ensures
            final(self).wf(),
            r == if old(self).motion(motion_id@) is None {
                Err::<(), FungifierError>(FungifierError::MotionNotFound)
            } else {
                Ok(())
            },
            r is Err ==> *final(self) == *old(self),
            r is Ok ==> {
                &&& final(self).same_but_motions(old(self))
                &&& motion_voted(
                    old(self).motion(motion_id@).unwrap(),
                    final(self).motion(motion_id@).unwrap(),
                    *caller,
                    choice,
                )
                &&& final(self).motion(motion_id@) is Some
                &&& forall|id: Seq<char>|
                    id != motion_id@ ==> #[trigger] final(self).motion(id) == old(self).motion(id)
            },
            old(self).is_sold() ==> final(self).is_sold() && final(self).proceeds() == old(
                self,
            ).proceeds(),
    {
        let i = match find_key(&self.motions, motion_id) {
            Some(i) => i,
            None => return Err(FungifierError::MotionNotFound),
        };
        let ghost s = self.motions();
        let (key, mut motion) = self.motions.remove(i);
        motion.cast(caller, choice);
        proof {
            lemma_lookup_update(s, i as int, motion);
        }
        self.motions.insert(i, (key, motion));
        assert(self.motions() =~= s.update(i as int, (s[i as int].0, motion)));
        Ok(())
    }

    /// The first reason, in the order they are checked, why finalizing motion
    /// `id` by `caller` with `deposit` attached is refused.
    pub open spec fn finish_refusal(&self, caller: Seq<char>, deposit: u128, id: Seq<char>) -> Option<
        FungifierError,
    > {
        match self.motion(id) {
            None => Some(FungifierError::MotionNotFound),
            Some(Motion::Misc(_)) => Some(FungifierError::NotASaleMotion),
            Some(Motion::Sale(m)) => if m.receiver_id@ != caller {
                Some(FungifierError::NotAuthorized)
            } else if deposit <= m.sale_price {
                Some(FungifierError::InsufficientDeposit)
            } else if self.pending() is Some {
                Some(FungifierError::SaleInProgress)
            } else if self.proceeds() is Some {
                Some(FungifierError::AlreadySold)
            } else {
                None
            },
        }
    }

    /// Finalizes a sale motion: its receiver, paying more than the sale price,
    /// has the ballots tallied against the current ledger. Below either
    /// threshold the motion is rejected and nothing changes. Otherwise the
    /// payment is captured, the sale becomes pending, and the asset is to be
    /// handed over to the receiver.
    pub fn finish_sale_motion(&mut self, caller: &String, attached_deposit: u128, motion_id: String) -> (r:
        Result<SaleOutcome, FungifierError>)
        requires
            old(self).wf(),
        ensures
            final(self).wf(),
            match old(self).finish_refusal(caller@, attached_deposit, motion_id@) {
                Some(e) => r == Err::<SaleOutcome, FungifierError>(e),
                None => r is Ok,
            },
            old(self).is_sold() ==> r is Err,
            !(r matches Ok(SaleOutcome::HandOff(_))) ==> *final(self) == *old(self),
            old(self).finish_refusal(caller@, attached_deposit, motion_id@) is None ==> match old(
                self,
            ).motion(motion_id@) {
                Some(Motion::Sale(m)) => {
                    let participated = m.votes.participated(old(self).ledger());
                    let favorable = m.votes.favorable(old(self).ledger());
                    if participated < old(self).participation_threshold() {
                        r matches Ok(SaleOutcome::ParticipationNotMet)
                    } else if favorable < old(self).acceptance_threshold() {
                        r matches Ok(SaleOutcome::AcceptanceNotMet)
                    } else {
                        &&& r matches Ok(SaleOutcome::HandOff(h)) && h.new_owner == m.receiver_id
                            && h.nft_contract_id@ == old(self).nft_contract() && h.nft_token_id@
                            == old(self).nft_token()
                        &&& final(self).same_but_settlement(old(self))
                        &&& final(self).proceeds() == Some(attached_deposit)
                        &&& final(self).pending() == Some(motion_id@)
                        &&& final(self).sold_motion() == old(self).sold_motion()
                    }
                },
                _ => false,
            },
    {
        let i = match find_key(&self.motions, &motion_id) {
            Some(i) => i,
            None => return Err(FungifierError::MotionNotFound),
        };
        let (receiver, participated, accepted) = match &self.motions[i].1 {
            Motion::Sale(m) => {
                if m.receiver_id != *caller {
                    return Err(FungifierError::NotAuthorized);
                }
                if attached_deposit <= m.sale_price {
                    return Err(FungifierError::InsufficientDeposit);
                }
                if self.sale_in_progress_id.is_some() {
                    return Err(FungifierError::SaleInProgress);
                }
                if self.cashout_amount.is_some() {
                    return Err(FungifierError::AlreadySold);
                }
                let participated = m.votes.total_votes(&self.ft_owners);
                let accepted = m.votes.favorable_votes(&self.ft_owners);
                (m.receiver_id.clone(), participated, accepted)
            },
            Motion::Misc(_) => return Err(FungifierError::NotASaleMotion),
        };
        if participated < self.dao_participation_threshold {
            return Ok(SaleOutcome::ParticipationNotMet);
        }
        if accepted < self.dao_acceptance_threshold {
            return Ok(SaleOutcome::AcceptanceNotMet);
        }
        self.cashout_amount = Some(attached_deposit);
        self.sale_in_progress_id = Some(motion_id);
        Ok(
            SaleOutcome::HandOff(
                AssetHandOff {
                    nft_contract_id: self.nft_contract_id.clone(),
                    nft_token_id: self.nft_token_id.clone(),
                    new_owner: receiver,
                },
            ),
        )
    }

    /// Settles the pending sale once the hand-off has reported back; only the
    /// contract itself may call it. A failed hand-off refunds the whole
    /// captured payment to the receiver and clears the settlement state; a
    /// successful one refunds the motion deposit and leaves the payment
    /// captured for good.
    pub fn resolve_sale(&mut self, caller: &String, current_account_id: &String, hand_off_succeeded: bool) -> (r:
        Result<Settlement, FungifierError>)
        requires
            old(self).wf(),
        ensures
            final(self).wf(),
            caller@ != current_account_id@ ==> r matches Err(FungifierError::NotAuthorized),
            caller@ == current_account_id@ && old(self).pending() is None ==> r matches Err(
                FungifierError::NoSaleInProgress,
            ),
            r is Err ==> *final(self) == *old(self),
            caller@ == current_account_id@ && old(self).pending() is Some ==> match old(self).motion(
                old(self).pending().unwrap(),
            ) {
                Some(Motion::Sale(m)) => {
                    &&& r matches Ok(st) && st.sold == hand_off_succeeded && st.refund.receiver_id
                        == m.receiver_id && st.refund.amount == if hand_off_succeeded {
                        MOTION_DEPOSIT
                    } else {
                        old(self).proceeds().unwrap()
                    }
                    &&& final(self).same_but_settlement(old(self))
                    &&& final(self).pending() is None
                    &&& final(self).proceeds() == if hand_off_succeeded {
                        old(self).proceeds()
                    } else {
                        None
                    }
                    &&& final(self).sold_motion() == if hand_off_succeeded {
                        old(self).pending()
                    } else {
                        old(self).sold_motion()
                    }
                },
                _ => false,
            },
            old(self).is_sold() ==> final(self).is_sold() && final(self).proceeds() == old(
                self,
            ).proceeds(),
    {
        if *caller != *current_account_id {
            return Err(FungifierError::NotAuthorized);
        }
        let id = match &self.sale_in_progress_id {
            Some(id) => id.clone(),
            None => return Err(FungifierError::NoSaleInProgress),
        };
        let captured = match self.cashout_amount {
            Some(a) => a,
            None => return Err(FungifierError::NoSaleInProgress),
        };
        let receiver = match find_key(&self.motions, &id) {
            Some(i) => match &self.motions[i].1 {
                Motion::Sale(m) => m.receiver_id.clone(),
                Motion::Misc(_) => return Err(FungifierError::NoSaleInProgress),
            },
            None => return Err(FungifierError::NoSaleInProgress),
        };
        self.sale_in_progress_id = None;
        if hand_off_succeeded {
            self.sold_motion_id = Some(id);
            Ok(Settlement { sold: true, refund: Payment { receiver_id: receiver, amount: MOTION_DEPOSIT } })
        } else {
            self.cashout_amount = None;
            Ok(Settlement { sold: false, refund: Payment { receiver_id: receiver, amount: captured } })
        }
    }

    /// Withdraws a sale motion: only its receiver may, and not while its sale
    /// is pending nor once it is sold. The motion is removed and its deposit refunded.
    pub fn withdraw_sale_motion(&mut self, caller: &String, motion_id: &String) -> (r: Result<
        Payment,
        FungifierError,
    >)
        requires
            old(self).wf(),
        ensures
            final(self).wf(),
            r is Err ==> *final(self) == *old(self),
            match old(self).motion(motion_id@) {
                None => r matches Err(FungifierError::MotionNotFound),
                Some(Motion::Misc(_)) => r matches Err(FungifierError::NotASaleMotion),
                Some(Motion::Sale(m)) => if m.receiver_id@ != caller@ {
                    r matches Err(FungifierError::NotAuthorized)
                } else if old(self).pending() == Some(motion_id@) {
                    r matches Err(FungifierError::SaleInProgress)
                } else if old(self).sold_motion() == Some(motion_id@) {
                    r matches Err(FungifierError::AlreadySold)
                } else {
                    &&& r matches Ok(p) && p.receiver_id == m.receiver_id && p.amount
                        == MOTION_DEPOSIT
                    &&& final(self).same_but_motions(old(self))
                    &&& final(self).motion(motion_id@) is None
                    &&& forall|id: Seq<char>|
                        id != motion_id@ ==> #[trigger] final(self).motion(id) == old(self).motion(
                            id,
                        )
                },
            },
            old(self).is_sold() ==> final(self).is_sold() && final(self).proceeds() == old(
                self,
            ).proceeds(),
    {
        let i = match find_key(&self.motions, motion_id) {
            Some(i) => i,
            None => return Err(FungifierError::MotionNotFound),
        };
        let receiver = match &self.motions[i].1 {
            Motion::Sale(m) => {
                if m.receiver_id != *caller {
                    return Err(FungifierError::NotAuthorized);
                }
                m.receiver_id.clone()
            },
            Motion::Misc(_) => return Err(FungifierError::NotASaleMotion),
        };
        match &self.sale_in_progress_id {
            Some(id) => {
                if *id == *motion_id {
                    return Err(FungifierError::SaleInProgress);
                }
            },
            None => {},
        }
        match &self.sold_motion_id {
            Some(id) => {
                if *id == *motion_id {
                    return Err(FungifierError::AlreadySold);
                }
            },
            None => {},
        }
        let ghost s = self.motions();
        proof {
            lemma_lookup_remove(s, i as int);
        }
        self.motions.remove(i);
        assert(self.motions() =~= s.remove(i as int));
        Ok(Payment { receiver_id: receiver, amount: MOTION_DEPOSIT })
    }

    /// Pays a registered caller their share of the proceeds of a completed
    /// sale and sets their balance to zero. One unit must be attached.
    pub fn cashout(&mut self, caller: &String, attached_deposit: u128) -> (r: Result<
        Payment,
        FungifierError,
    >)
        requires
            old(self).wf(),
        ensures
            final(self).wf(),
            r is Err ==> *final(self) == *old(self),
            attached_deposit != 1 ==> r matches Err(FungifierError::InvalidDeposit),
            attached_deposit == 1 && old(self).proceeds() is None ==> r matches Err(
                FungifierError::NotSold,
            ),
            attached_deposit == 1 && old(self).proceeds() is Some && old(self).pending() is Some
                ==> r matches Err(FungifierError::SaleInProgress),
            attached_deposit == 1 && old(self).is_sold() && old(self).ledger().balance(caller@)
                is None ==> r matches Err(FungifierError::NotRegistered),
            attached_deposit == 1 && old(self).is_sold() && old(self).ledger().balance(caller@)
                is Some ==> match payout(
                old(self).proceeds().unwrap(),
                old(self).ledger().weight(caller@),
                old(self).ledger().supply(),
            ) {
                None => r matches Err(FungifierError::PayoutOverflow),
                Some(amount) => {
                    &&& r matches Ok(p) && p.receiver_id == *caller && p.amount == amount
                    &&& final(self).same_but_ledger(old(self))
                    &&& forall|a: Seq<char>| #[trigger]
                        final(self).ledger().balance(a) == if a == caller@ {
                            Some(0u128)
                        } else {
                            old(self).ledger().balance(a)
                        }
                },
            },
            old(self).is_sold() ==> final(self).is_sold() && final(self).proceeds() == old(
                self,
            ).proceeds(),
    {
        if attached_deposit != 1 {
            return Err(FungifierError::InvalidDeposit);
        }
        let proceeds = match self.cashout_amount {
            Some(a) => a,
            None => return Err(FungifierError::NotSold),
        };
        if self.sale_in_progress_id.is_some() {
            return Err(FungifierError::SaleInProgress);
        }
        let balance = match self.ft_owners.balance_of(caller) {
            Ok(b) => b,
            Err(e) => return Err(e),
        };
        let supply = self.ft_owners.total_supply();
        if supply == 0 {
            return Err(FungifierError::PayoutOverflow);
        }
        let scaled = match balance.checked_mul(PRECISION) {
            Some(x) => x,
            None => return Err(FungifierError::PayoutOverflow),
        };
        let share = scaled / supply;
        let total = match proceeds.checked_mul(share) {
            Some(x) => x,
            None => return Err(FungifierError::PayoutOverflow),
        };
        let amount = total / PRECISION;
        self.ft_owners.clear(caller);
        Ok(Payment { receiver_id: caller.clone(), amount })
    }

    /// Moves shares from the caller to a registered account; one unit must be
    /// attached. See `Ledger::transfer`.
    pub fn ft_transfer(&mut self, caller: &String, attached_deposit: u128, receiver_id: &String, amount: u128) -> (r:
        Result<(), FungifierError>)
        requires
            old(self).wf(),
        ensures
            final(self).wf(),
            r is Err ==> *final(self) == *old(self),
            r == if attached_deposit != 1 {
                Err::<(), FungifierError>(FungifierError::InvalidDeposit)
            } else if old(self).ledger().balance(caller@) is None || old(self).ledger().balance(
                receiver_id@,
            ) is None {
                Err(FungifierError::NotRegistered)
            } else if old(self).ledger().weight(caller@) <= amount {
                Err(FungifierError::InsufficientShares)
            } else {
                Ok(())
            },
            r is Ok ==> {
                &&& final(self).same_but_ledger(old(self))
                &&& final(self).ledger().recorded_total() == old(self).ledger().recorded_total()
                &&& forall|a: Seq<char>| #[trigger]
                    final(self).ledger().balance(a) == if caller@ == receiver_id@ {
                        old(self).ledger().balance(a)
                    } else if a == caller@ {
                        Some((old(self).ledger().weight(a) - amount) as u128)
                    } else if a == receiver_id@ {
                        Some((old(self).ledger().weight(a) + amount) as u128)
                    } else {
                        old(self).ledger().balance(a)
                    }
            },
            old(self).is_sold() ==> final(self).is_sold() && final(self).proceeds() == old(
                self,
            ).proceeds(),
    {
        if attached_deposit != 1 {
            return Err(FungifierError::InvalidDeposit);
        }
        self.ft_owners.transfer(caller, receiver_id, amount)
    }

    pub fn ft_total_supply(&self) -> (r: u128)
        ensures
            r == self.ledger().supply(),
    {
        self.ft_owners.total_supply()
    }

    /// The balance of a registered account.
    pub fn ft_balance_of(&self, account_id: &String) -> (r: Result<u128, FungifierError>)
        requires
            self.wf(),
        ensures
            r == match self.ledger().balance(account_id@) {
                Some(b) => Ok::<u128, FungifierError>(b),
                None => Err(FungifierError::NotRegistered),
            },
    {
        self.ft_owners.balance_of(account_id)
    }

    pub fn cashout_amount(&self) -> (r: Option<u128>)
        ensures
            r == self.proceeds(),
    {
        self.cashout_amount
    }

    pub fn sale_in_progress_id(&self) -> (r: Option<String>)
        ensures
            match r {
                Some(id) => self.pending() == Some(id@),
                None => self.pending() is None,
            },
    {
        match &self.sale_in_progress_id {
            Some(id) => Some(id.clone()),
            None => None,
        }
    }
}

} // verus!
