//! The ledger itself: the registry, the balance table and the allocator,
//! owned together and changed only through `mint`, `burn` and `transfer`.

use vstd::prelude::*;
use crate::allocator::IdAllocator;
use crate::balances::BalanceLedger;
use crate::laws::{law_burn_conserves, law_empty_consistent, law_mint_conserves, law_transfer_conserves};
use crate::model::{book_of, books_finite, lemma_held_le_sum};
use crate::registry::AssetRegistry;
use crate::state::LedgerState;
use crate::types::{AccountId, Error, Event, UniqueAssetDetails, UniqueAssetId};

verus! {

/// A multi-asset ledger. Callers are taken to be authenticated already: an
/// `AccountId` handed to a transition is the account on whose behalf it runs.
pub struct Pallet {
    registry: AssetRegistry,
    balances: BalanceLedger,
    ids: IdAllocator,
    events: Vec<Event>,
    max_length: u32,
}

impl View for Pallet {
    type V = LedgerState;

    closed spec fn view(&self) -> LedgerState {
        LedgerState {
            assets: self.registry@,
            holdings: self.balances@,
            next_id: self.ids@,
            events: self.events@,
            max_length: self.max_length,
        }
    }
}

impl Pallet {
    /// Every book of a ledger's balance table is finite.
    pub proof fn lemma_books_finite(&self)
        ensures
            books_finite(self@.holdings),
    {
        self.balances.lemma_books_finite();
    }

    /// An empty ledger whose assets may carry up to `max_length` bytes of metadata.
    pub fn new(max_length: u32) -> (pallet: Self)
        ensures
            pallet@ == LedgerState::empty(max_length),
            pallet@.consistent(),
    {
        proof {
            law_empty_consistent(max_length);
        }
        Pallet {
            registry: AssetRegistry::new(),
            balances: BalanceLedger::new(),
            ids: IdAllocator::new(),
            events: Vec::new(),
            max_length,
        }
    }

    /// An empty ledger whose first asset takes the identifier `next_id`.
    pub fn starting_at(max_length: u32, next_id: UniqueAssetId) -> (pallet: Self)
        ensures
            pallet@ == (LedgerState { next_id, ..LedgerState::empty(max_length) }),
            pallet@.consistent(),
    {
        proof {
            law_empty_consistent(max_length);
            let empty = LedgerState::empty(max_length);
            let state = LedgerState { next_id, ..empty };
            assert forall|asset: UniqueAssetId| #[trigger]
                state.total(asset) == state.supply(asset) by {
                assert(empty.total(asset) == empty.supply(asset));
            }
        }
        Pallet {
            registry: AssetRegistry::new(),
            balances: BalanceLedger::new(),
            ids: IdAllocator::starting_at(next_id),
            events: Vec::new(),
            max_length,
        }
    }

    /// The largest number of metadata bytes that an asset may carry.
    pub fn max_length(&self) -> (max_length: u32)
        ensures
            max_length == self@.max_length,
    {
        self.max_length
    }

    /// The identifier that the next mint uses.
    pub fn nonce(&self) -> (id: UniqueAssetId)
        ensures
            id == self@.next_id,
    {
        self.ids.peek()
    }

    /// The record of `asset_id`, if that asset was created.
    pub fn unique_asset(&self, asset_id: UniqueAssetId) -> (found: Option<&UniqueAssetDetails>)
        ensures
            match found {
                Some(details) => self@.assets.contains_key(asset_id) && details@
                    == self@.assets[asset_id],
                None => !self@.assets.contains_key(asset_id),
            },
    {
        self.registry.get(asset_id)
    }

    /// What `account` holds of `asset_id`; zero if it never held any.
    pub fn account(&self, asset_id: UniqueAssetId, account: AccountId) -> (amount: u128)
        ensures
            amount == self@.balance(asset_id, account),
    {
        self.balances.get(asset_id, account)
    }

    /// What the transitions have reported so far, oldest first.
    pub fn events(&self) -> (events: &Vec<Event>)
        ensures
            events@ == self@.events,
    {
        &self.events
    }

    /// Succeeds exactly when `account` holds a positive balance of `asset_id`.
    pub fn ensure_own_some(&self, asset_id: UniqueAssetId, account: AccountId) -> (result: Result<
        (),
        Error,
    >)
        ensures
            result is Ok <==> self@.balance(asset_id, account) != 0,
            result is Err ==> result == Err::<(), Error>(Error::NotOwned),
    {
        if self.balances.get(asset_id, account) == 0 {
            Err(Error::NotOwned)
        } else {
            Ok(())
        }
    }

    /// Appends `event` to what the ledger has reported.
    fn deposit_event(&mut self, event: Event)
        ensures
            final(self)@ == (LedgerState { events: old(self)@.events.push(event), ..old(self)@ }),
    {
        self.events.push(event);
    }

    /// Creates a new asset with `supply` units, all held by `origin`, and
    /// returns its identifier. A supply of zero is refused with `NoSupply`,
    /// and nothing changes.
    ///
    /// The identifier is the allocator's next one. An allocator that has
    /// reached the largest identifier hands it out again, and the new asset
    /// then takes the place of the one that carried it.
    pub fn mint(&mut self, origin: AccountId, metadata: Vec<u8>, supply: u128) -> (result: Result<
        UniqueAssetId,
        Error,
    >)
        requires
            metadata@.len() <= old(self)@.max_length,
        ensures
            result == old(self)@.mint_result(origin, supply),
            final(self)@ == old(self)@.after_mint(origin, metadata@, supply),
            supply == 0 ==> result == Err::<UniqueAssetId, Error>(Error::NoSupply) && final(self)@
                == old(self)@,
            supply != 0 ==> result == Ok::<UniqueAssetId, Error>(old(self)@.next_id),
            old(self)@.well_formed() ==> final(self)@.well_formed(),
            old(self)@.conserved() && !old(self)@.assets.contains_key(old(self)@.next_id)
                ==> final(self)@.conserved(),
            old(self)@.consistent() && old(self)@.next_id < UniqueAssetId::MAX ==> final(self)@.consistent(),
    {
        let ghost bytes = metadata@;
        proof {
            self.balances.lemma_books_finite();
            law_mint_conserves(self@, origin, bytes, supply);
        }
        if supply == 0 {
            return Err(Error::NoSupply);
        }
        let id = self.registry.create(&mut self.ids, origin, metadata, supply);
        self.balances.credit(id, origin, supply);
        self.deposit_event(Event::Created { creator: origin, asset_id: id });
        Ok(id)
    }

    /// Destroys up to `amount` units of `asset_id` held by `origin` and
    /// returns the supply that remains. What is destroyed is the lesser of
    /// `amount` and the holding; the same quantity leaves the holding and
    /// the supply.
    ///
    /// Refused with `UnknownAssetId` if the asset was never created, else
    /// with `NotOwned` if `origin` holds nothing of it; nothing changes then.
    ///
    /// A burn takes from the supply what it takes from the holding, so it
    /// asks for a ledger whose balances add up to its supplies; it leaves
    /// the ledger so.
    pub fn burn(&mut self, origin: AccountId, asset_id: UniqueAssetId, amount: u128) -> (result:
        Result<u128, Error>)
        requires
            old(self)@.conserved(),
        ensures
            result == old(self)@.burn_result(origin, asset_id, amount),
            final(self)@ == old(self)@.after_burn(origin, asset_id, amount),
            result is Err ==> final(self)@ == old(self)@,
            old(self)@.well_formed() ==> final(self)@.well_formed(),
            final(self)@.conserved(),
            old(self)@.consistent() ==> final(self)@.consistent(),
    {
        proof {
            self.balances.lemma_books_finite();
            law_burn_conserves(self@, origin, asset_id, amount);
            assert(self@.total(asset_id) == self@.supply(asset_id));
            lemma_held_le_sum(book_of(self@.holdings, asset_id), origin);
        }
        let supply = match self.registry.get(asset_id) {
            Some(details) => details.supply(),
            None => {
                return Err(Error::UnknownAssetId);
            },
        };
        self.ensure_own_some(asset_id, origin)?;
        let burned = self.balances.debit(asset_id, origin, amount);
        self.registry.reduce_supply(asset_id, burned)?;
        let total_supply = supply - burned;
        self.deposit_event(Event::Burned { asset_id, owner: origin, total_supply });
        Ok(total_supply)
    }

    /// Moves up to `amount` units of `asset_id` from `origin` to `to` and
    /// returns the amount that moved: the lesser of `amount` and what
    /// `origin` holds. The supply does not change. A transfer to oneself
    /// leaves the holding as it was and is still reported.
    ///
    /// Refused with `UnknownAssetId` if the asset was never created, else
    /// with `NotOwned` if `origin` holds nothing of it; nothing changes then.
    pub fn transfer(
        &mut self,
        origin: AccountId,
        asset_id: UniqueAssetId,
        amount: u128,
        to: AccountId,
    ) -> (result: Result<u128, Error>)
        ensures
            result == old(self)@.transfer_result(origin, asset_id, amount),
            final(self)@ == old(self)@.after_transfer(origin, asset_id, amount, to),
            result is Err ==> final(self)@ == old(self)@,
            final(self)@.assets == old(self)@.assets,
            old(self)@.well_formed() ==> final(self)@.well_formed(),
            old(self)@.conserved() ==> final(self)@.conserved(),
            old(self)@.consistent() ==> final(self)@.consistent(),
    {
        proof {
            self.balances.lemma_books_finite();
            law_transfer_conserves(self@, origin, asset_id, amount, to);
        }
        if self.registry.get(asset_id).is_none() {
            return Err(Error::UnknownAssetId);
        }
        self.ensure_own_some(asset_id, origin)?;
        let moved = self.balances.debit(asset_id, origin, amount);
        self.balances.credit(asset_id, to, moved);
        self.deposit_event(Event::Transferred { asset_id, from: origin, to, amount: moved });
        Ok(moved)
    }
}

} // verus!
