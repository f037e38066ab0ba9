//! The ownership ledger: share balances by account, under a fixed total supply.
use vstd::prelude::*;

use crate::error::FungifierError;
use crate::keyed::{
    all_keys_unique, find_key, has_key, keyed_view, keys_unique, lemma_lookup_at, lemma_lookup_push,
    lemma_lookup_update, lookup,
};

verus! {

/// The sum of the balances in a list of entries.
pub open spec fn sum_balances(s: Seq<(Seq<char>, u128)>) -> int
    decreases s.len(),
{
    if s.len() == 0 {
        0
    } else {
        sum_balances(s.drop_last()) + s.last().1
    }
}

proof fn lemma_sum_update(s: Seq<(Seq<char>, u128)>, i: int, v: u128)
    requires
        0 <= i < s.len(),
    ensures
        sum_balances(s.update(i, (s[i].0, v))) == sum_balances(s) - s[i].1 + v,
    decreases s.len(),
{
    let t = s.update(i, (s[i].0, v));
    if i == s.len() - 1 {
        assert(t.drop_last() =~= s.drop_last());
    } else {
        assert(t.drop_last() =~= s.drop_last().update(i, (s[i].0, v)));
        lemma_sum_update(s.drop_last(), i, v);
    }
}

proof fn lemma_entry_le_sum(s: Seq<(Seq<char>, u128)>, i: int)
    requires
        0 <= i < s.len(),
    ensures
        s[i].1 <= sum_balances(s),
    decreases s.len(),
{
    lemma_sum_nonneg(s.drop_last());
    if i < s.len() - 1 {
        lemma_entry_le_sum(s.drop_last(), i);
    }
}

proof fn lemma_sum_prefix_le(s: Seq<(Seq<char>, u128)>, k: int)
    requires
        0 <= k <= s.len(),
    ensures
        sum_balances(s.take(k)) <= sum_balances(s),
    decreases s.len(),
{
    if k < s.len() {
        lemma_sum_prefix_le(s.drop_last(), k);
        assert(s.drop_last().take(k) =~= s.take(k));
    } else {
        assert(s.take(k) =~= s);
    }
}

proof fn lemma_sum_nonneg(s: Seq<(Seq<char>, u128)>)
    ensures
        sum_balances(s) >= 0,
    decreases s.len(),
{
    if s.len() > 0 {
        lemma_sum_nonneg(s.drop_last());
    }
}

/// Share balances by account. An account is registered once it has an entry;
/// the recorded balances never add up to more than the total supply.
pub struct Ledger {
    total_supply: u128,
    assigned: u128,
    owners: Vec<(String, u128)>,
}

impl Ledger {
    /// The entries, each account seen as its characters.
    pub closed spec fn entries(&self) -> Seq<(Seq<char>, u128)> {
        keyed_view(self.owners@)
    }

    /// The total supply fixed at construction.
    pub closed spec fn supply(&self) -> u128 {
        self.total_supply
    }

    /// The balance of a registered account; `None` for one that is not.
    pub open spec fn balance(&self, a: Seq<char>) -> Option<u128> {
        lookup(self.entries(), a)
    }

    /// The vote weight of an account: its balance, zero when unregistered.
    pub open spec fn weight(&self, a: Seq<char>) -> u128 {
        match self.balance(a) {
            Some(b) => b,
            None => 0,
        }
    }

    /// The sum of all recorded balances.
    pub open spec fn recorded_total(&self) -> int {
        sum_balances(self.entries())
    }

    /// Accounts are unique, the running total matches the entries, and the
    /// entries fit in the supply.
    pub closed spec fn wf(&self) -> bool {
        &&& keys_unique(self.entries())
        &&& self.assigned as int == self.recorded_total()
        &&& self.recorded_total() <= self.total_supply
    }

    /// The recorded balances never exceed the total supply.
    pub proof fn lemma_within_supply(&self)
        requires
            self.wf(),
        ensures
            0 <= self.recorded_total() <= self.supply(),
    {
        lemma_sum_nonneg(self.entries());
    }

    /// An empty ledger over a fixed total supply.
    pub fn new(total_supply: u128) -> (r: Ledger)
        ensures
            r.wf(),
            r.supply() == total_supply,
            r.recorded_total() == 0,
            forall|a: Seq<char>| #[trigger] r.balance(a) is None,
    {
        let r = Ledger { total_supply, assigned: 0, owners: Vec::new() };
        assert(r.entries() =~= Seq::empty());
        r
    }

    /// A ledger holding the given entries, where no account is listed twice
    /// and the balances add up to no more than the total supply.
    pub fn from_entries(total_supply: u128, owners: Vec<(String, u128)>) -> (r: Option<Ledger>)
        ensures
            r is Some <==> keys_unique(keyed_view(owners@)) && sum_balances(keyed_view(owners@))
                <= total_supply,
            r matches Some(l) ==> l.wf() && l.supply() == total_supply && l.entries()
                == keyed_view(owners@),
    {
        if !all_keys_unique(&owners) {
            return None;
        }
        let ghost s = keyed_view(owners@);
        let mut assigned: u128 = 0;
        let mut i: usize = 0;
        while i < owners.len()
            invariant
                i <= owners@.len(),
                s == keyed_view(owners@),
                assigned == sum_balances(s.take(i as int)),
                assigned <= total_supply,
                keys_unique(s),
            decreases owners@.len() - i,
        {
            assert(s.take(i + 1).drop_last() =~= s.take(i as int));
            assert(s.take(i + 1).last().1 == owners@[i as int].1);
            if owners[i].1 > total_supply - assigned {
                proof {
                    lemma_sum_prefix_le(s, i + 1);
                }
                return None;
            }
            assigned = assigned + owners[i].1;
            i = i + 1;
        }
        assert(s.take(i as int) =~= s);
        Some(Ledger { total_supply, assigned, owners })
    }

    /// The total supply and the entries, for storage.
    pub fn into_entries(self) -> (r: (u128, Vec<(String, u128)>))
        requires
            self.wf(),
        ensures
            r.0 == self.supply(),
            keyed_view(r.1@) == self.entries(),
            keys_unique(keyed_view(r.1@)),
            sum_balances(keyed_view(r.1@)) <= r.0,
    {
        (self.total_supply, self.owners)
    }

    pub fn total_supply(&self) -> (r: u128)
        ensures
            r == self.supply(),
    {
        self.total_supply
    }

    /// The balance of an account, refused for an unregistered one.
    pub fn balance_of(&self, account_id: &String) -> (r: Result<u128, FungifierError>)
        requires
            self.wf(),
        ensures
            r == match self.balance(account_id@) {
                Some(b) => Ok::<u128, FungifierError>(b),
                None => Err(FungifierError::NotRegistered),
            },
    {
        match find_key(&self.owners, account_id) {
            Some(i) => Ok(self.owners[i].1),
            None => Err(FungifierError::NotRegistered),
        }
    }

    /// The vote weight of an account; an unregistered one weighs nothing.
    pub fn weight_of(&self, account_id: &String) -> (r: u128)
        requires
            self.wf(),
        ensures
            r == self.weight(account_id@),
    {
        match find_key(&self.owners, account_id) {
            Some(i) => self.owners[i].1,
            None => 0,
        }
    }

    /// Sets the balance of `account` to `amount`, creating its entry when it has
    /// none; the caller has checked that the new recorded total fits.
    fn put(&mut self, account: &String, amount: u128)
        requires
            old(self).wf(),
            old(self).recorded_total() - old(self).weight(account@) + amount
                <= old(self).supply(),
        ensures
            final(self).wf(),
            final(self).supply() == old(self).supply(),
            final(self).recorded_total() == old(self).recorded_total() - old(self).weight(
                account@,
            ) + amount,
            forall|a: Seq<char>| #[trigger]
                final(self).balance(a) == if a == account@ {
                    Some(amount)
                } else {
                    old(self).balance(a)
                },
    {
        let ghost s = self.entries();
        proof {
            lemma_sum_nonneg(s);
        }
        match find_key(&self.owners, account) {
            Some(i) => {
                proof {
                    lemma_lookup_update(s, i as int, amount);
                    lemma_sum_update(s, i as int, amount);
                    lemma_entry_le_sum(s, i as int);
                }
                let old_amount = self.owners[i].1;
                let key = account.clone();
                self.owners.set(i, (key, amount));
                self.assigned = self.assigned - old_amount + amount;
                assert(self.entries() =~= s.update(i as int, (s[i as int].0, amount)));
            },
            None => {
                proof {
                    lemma_lookup_push(s, account@, amount);
                }
                self.owners.push((account.clone(), amount));
                self.assigned = self.assigned + amount;
                assert(self.entries().drop_last() =~= s);
                assert(self.entries() =~= s.push((account@, amount)));
            },
        }
    }

    /// Registers an account with a balance of zero. An account that is
    /// registered already keeps its balance, and the ledger is unchanged.
    pub fn register(&mut self, account_id: &String)
        requires
            old(self).wf(),
        ensures
            final(self).wf(),
            old(self).balance(account_id@) is Some ==> *final(self) == *old(self),
            final(self).supply() == old(self).supply(),
            final(self).recorded_total() == old(self).recorded_total(),
            forall|a: Seq<char>| #[trigger]
                final(self).balance(a) == if a == account_id@ && old(self).balance(a) is None {
                    Some(0u128)
                } else {
                    old(self).balance(a)
                },
    {
        if find_key(&self.owners, account_id).is_some() {
            return;
        }
        self.put(account_id, 0);
    }

    /// Sets the balance of a registered account to zero.
    pub fn clear(&mut self, account_id: &String)
        requires
            old(self).wf(),
            old(self).balance(account_id@) is Some,
        ensures
            final(self).wf(),
            final(self).supply() == old(self).supply(),
            final(self).recorded_total() == old(self).recorded_total() - old(self).weight(
                account_id@,
            ),
            forall|a: Seq<char>| #[trigger]
                final(self).balance(a) == if a == account_id@ {
                    Some(0u128)
                } else {
                    old(self).balance(a)
                },
    {
        proof {
            self.lemma_weight_le_total(account_id@);
        }
        self.put(account_id, 0);
    }

    proof fn lemma_weight_le_total(&self, a: Seq<char>)
        requires
            self.wf(),
        ensures
            self.weight(a) <= self.recorded_total(),
    {
        lemma_sum_nonneg(self.entries());
        if has_key(self.entries(), a) {
            let i = choose|i: int| 0 <= i < self.entries().len() && self.entries()[i].0 == a;
            lemma_lookup_at(self.entries(), i);
            lemma_entry_le_sum(self.entries(), i);
        }
    }

    /// Assigns shares that no account holds yet to a registered account.
    pub fn allocate(&mut self, account_id: &String, amount: u128) -> (r: Result<
        (),
        FungifierError,
    >)
        requires
            old(self).wf(),
        ensures
            final(self).wf(),
            final(self).supply() == old(self).supply(),
            r == if old(self).balance(account_id@) is None {
                Err::<(), FungifierError>(FungifierError::NotRegistered)
            } else if old(self).recorded_total() + amount > old(self).supply() {
                Err(FungifierError::ExceedsSupply)
            } else {
                Ok(())
            },
            r is Err ==> *final(self) == *old(self),
            r is Ok ==> {
                &&& old(self).balance(account_id@) is Some
                &&& old(self).recorded_total() + amount <= old(self).supply()
                &&& final(self).recorded_total() == old(self).recorded_total() + amount
                &&& forall|a: Seq<char>| #[trigger]
                    final(self).balance(a) == if a == account_id@ {
                        Some((old(self).weight(a) + amount) as u128)
                    } else {
                        old(self).balance(a)
                    }
            },
    {
        let current = match self.balance_of(account_id) {
            Ok(b) => b,
            Err(e) => return Err(e),
        };
        if amount > self.total_supply - self.assigned {
            return Err(FungifierError::ExceedsSupply);
        }
        proof {
            self.lemma_weight_le_total(account_id@);
        }
        self.put(account_id, current + amount);
        Ok(())
    }

    /// Moves `amount` shares from `sender_id` to `receiver_id`. Both must be
    /// registered and the sender's balance must be strictly greater than the
    /// amount. The recorded total does not change; a transfer to oneself
    /// leaves every balance as it was.
    pub fn transfer(&mut self, sender_id: &String, receiver_id: &String, amount: u128) -> (r:
        Result<(), FungifierError>)
        requires
            old(self).wf(),
        ensures
            final(self).wf(),
            final(self).supply() == old(self).supply(),
            final(self).recorded_total() == old(self).recorded_total(),
            r == if old(self).balance(sender_id@) is None || old(self).balance(
                receiver_id@,
            ) is None {
                Err::<(), FungifierError>(FungifierError::NotRegistered)
            } else if old(self).weight(sender_id@) <= amount {
                Err(FungifierError::InsufficientShares)
            } else {
                Ok(())
            },
            r is Err ==> *final(self) == *old(self),
            r is Ok ==> forall|a: Seq<char>| #[trigger]
                final(self).balance(a) == if sender_id@ == receiver_id@ {
                    old(self).balance(a)
                } else if a == sender_id@ {
                    Some((old(self).weight(a) - amount) as u128)
                } else if a == receiver_id@ {
                    Some((old(self).weight(a) + amount) as u128)
                } else {
                    old(self).balance(a)
                },
    {
        let sender_balance = match self.balance_of(sender_id) {
            Ok(b) => b,
            Err(e) => return Err(e),
        };
        match self.balance_of(receiver_id) {
            Ok(_) => {},
            Err(e) => return Err(e),
        };
        if sender_balance <= amount {
            return Err(FungifierError::InsufficientShares);
        }
        self.put(sender_id, sender_balance - amount);
        let receiver_balance = self.weight_of(receiver_id);
        proof {
            self.lemma_weight_le_total(receiver_id@);
        }
        self.put(receiver_id, receiver_balance + amount);
        Ok(())
    }
}

} // verus!
