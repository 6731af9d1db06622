//! The table of balances, keyed by asset and account.

use vstd::prelude::*;
use std::collections::HashMap;
use crate::types::{AccountId, UniqueAssetId};
use crate::model::{
    balance_in, books_finite, clipped, credited, debited, lemma_with_balance, topped_up,
    total_in, with_balance,
};

verus! {

broadcast use vstd::std_specs::hash::group_hash_axioms;

/// What every account holds of every asset. An entry that was never written
/// reads as zero.
pub struct BalanceLedger {
    books: HashMap<UniqueAssetId, HashMap<AccountId, u128>>,
}

impl View for BalanceLedger {
    type V = Map<UniqueAssetId, Map<AccountId, u128>>;

    closed spec fn view(&self) -> Map<UniqueAssetId, Map<AccountId, u128>> {
        self.books@.map_values(|book: HashMap<AccountId, u128>| book@)
    }
}

impl BalanceLedger {
    /// What `who` holds of `asset`.
    pub open spec fn balance(&self, asset: UniqueAssetId, who: AccountId) -> u128 {
        balance_in(self@, asset, who)
    }

    /// The sum of what all accounts hold of `asset`.
    pub open spec fn total(&self, asset: UniqueAssetId) -> nat {
        total_in(self@, asset)
    }

    /// Every book of a ledger is finite.
    pub proof fn lemma_books_finite(&self)
        ensures
            books_finite(self@),
    {
    }

    /// A table in which nobody holds anything.
    pub fn new() -> (ledger: Self)
        ensures
            ledger@ == Map::<UniqueAssetId, Map<AccountId, u128>>::empty(),
    {
        let ledger = BalanceLedger { books: HashMap::new() };
        assert(ledger@ =~= Map::<UniqueAssetId, Map<AccountId, u128>>::empty());
        ledger
    }

    /// What `who` holds of `asset`; zero if the entry was never written.
    pub fn get(&self, asset: UniqueAssetId, who: AccountId) -> (amount: u128)
        ensures
            amount == self.balance(asset, who),
    {
        match self.books.get(&asset) {
            Some(book) => match book.get(&who) {
                Some(amount) => *amount,
                None => 0,
            },
            None => 0,
        }
    }

    /// Writes `value` as what `who` holds of `asset`.
    fn put(&mut self, asset: UniqueAssetId, who: AccountId, value: u128)
        ensures
            final(self)@ == with_balance(old(self)@, asset, who, value),
    {
        let mut book = match self.books.remove(&asset) {
            Some(book) => book,
            None => HashMap::new(),
        };
        book.insert(who, value);
        self.books.insert(asset, book);
        assert(final(self)@ =~= with_balance(old(self)@, asset, who, value));
    }

    /// Adds `amount` to what `who` holds of `asset`. Never fails: where the
    /// sum would exceed the largest representable holding, the holding
    /// becomes that largest value.
    pub fn credit(&mut self, asset: UniqueAssetId, who: AccountId, amount: u128)
        ensures
            final(self)@ == credited(old(self)@, asset, who, amount),
            final(self).balance(asset, who) == topped_up(old(self).balance(asset, who), amount),
            forall|a: UniqueAssetId, w: AccountId|
                a != asset || w != who ==> #[trigger] final(self).balance(a, w) == old(self).balance(a, w),
            final(self).total(asset) == old(self).total(asset) - old(self).balance(asset, who)
                + final(self).balance(asset, who),
            forall|a: UniqueAssetId|
                a != asset ==> #[trigger] final(self).total(a) == old(self).total(a),
    {
        let balance = self.get(asset, who);
        let value = balance.saturating_add(amount);
        proof {
            self.lemma_books_finite();
            lemma_with_balance(self@, asset, who, value);
        }
        self.put(asset, who, value);
    }

    /// Takes from what `who` holds of `asset` as much of `amount` as is
    /// there, and returns what was taken. Never fails: a request beyond the
    /// holding empties it.
    pub fn debit(&mut self, asset: UniqueAssetId, who: AccountId, amount: u128) -> (removed: u128)
        ensures
            removed == clipped(old(self).balance(asset, who), amount),
            final(self)@ == debited(old(self)@, asset, who, amount),
            final(self).balance(asset, who) == old(self).balance(asset, who) - removed,
            forall|a: UniqueAssetId, w: AccountId|
                a != asset || w != who ==> #[trigger] final(self).balance(a, w) == old(self).balance(a, w),
            final(self).total(asset) == old(self).total(asset) - removed,
            forall|a: UniqueAssetId|
                a != asset ==> #[trigger] final(self).total(a) == old(self).total(a),
    {
        let balance = self.get(asset, who);
        let removed = if amount <= balance { amount } else { balance };
        let value = balance - removed;
        proof {
            self.lemma_books_finite();
            lemma_with_balance(self@, asset, who, value);
        }
        self.put(asset, who, value);
        removed
    }
}

} // verus!
