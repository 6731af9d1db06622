//! The ledger as a mathematical value, and the three transitions as
//! functions from one such value to the next.

use vstd::prelude::*;
use crate::model::{balance_in, books_finite, credited, total_in, with_balance};
use crate::rules::{burn_outcome, mint_outcome, transfer_outcome};
use crate::types::{AccountId, AssetView, Error, Event, UniqueAssetId};

verus! {

/// Everything the ledger knows at one moment.
pub struct LedgerState {
    /// The record of every asset that was created.
    pub assets: Map<UniqueAssetId, AssetView>,
    /// Per asset, what each account holds.
    pub holdings: Map<UniqueAssetId, Map<AccountId, u128>>,
    /// The identifier that the next mint uses.
    pub next_id: UniqueAssetId,
    /// What the transitions have reported so far, oldest first.
    pub events: Seq<Event>,
    /// The largest number of metadata bytes that an asset may carry.
    pub max_length: u32,
}

impl LedgerState {
    /// The ledger before anything happened.
    pub open spec fn empty(max_length: u32) -> LedgerState {
        LedgerState {
            assets: Map::empty(),
            holdings: Map::empty(),
            next_id: 0,
            events: Seq::empty(),
            max_length,
        }
    }

    /// What `who` holds of `asset`.
    pub open spec fn balance(self, asset: UniqueAssetId, who: AccountId) -> u128 {
        balance_in(self.holdings, asset, who)
    }

    /// The sum of what all accounts hold of `asset`.
    pub open spec fn total(self, asset: UniqueAssetId) -> nat {
        total_in(self.holdings, asset)
    }

    /// The recorded supply of `asset`, if it was created.
    pub open spec fn recorded_supply(self, asset: UniqueAssetId) -> Option<u128> {
        if self.assets.contains_key(asset) {
            Some(self.assets[asset].supply)
        } else {
            None
        }
    }

    /// The supply of `asset`: what is recorded, or zero if it was never created.
    pub open spec fn supply(self, asset: UniqueAssetId) -> u128 {
        match self.recorded_supply(asset) {
            Some(units) => units,
            None => 0,
        }
    }

    /// The tables are sound as data: every book is finite and no asset
    /// carries more metadata than allowed.
    pub open spec fn well_formed(self) -> bool {
        &&& books_finite(self.holdings)
        &&& forall|asset: UniqueAssetId| #[trigger]
            self.assets.contains_key(asset) ==> self.assets[asset].metadata.len()
                <= self.max_length
    }

    /// For every asset identifier, the balances add up to the supply.
    pub open spec fn conserved(self) -> bool {
        forall|asset: UniqueAssetId| #[trigger] self.total(asset) == self.supply(asset)
    }

    /// No asset carries an identifier that the allocator has yet to hand out.
    pub open spec fn fresh(self) -> bool {
        forall|asset: UniqueAssetId| #[trigger]
            self.assets.contains_key(asset) ==> asset < self.next_id
    }

    /// What holds of every ledger that the transitions build from the empty
    /// one, as long as the allocator has identifiers left.
    pub open spec fn consistent(self) -> bool {
        &&& self.well_formed()
        &&& self.conserved()
        &&& self.fresh()
    }

    /// What a mint by `caller` returns.
    pub open spec fn mint_result(self, caller: AccountId, supply: u128) -> Result<
        UniqueAssetId,
        Error,
    > {
        match mint_outcome(self.next_id, self.balance(self.next_id, caller), supply) {
            Ok(outcome) => Ok(outcome.asset_id),
            Err(error) => Err(error),
        }
    }

    /// The ledger after a mint by `caller`.
    pub open spec fn after_mint(
        self,
        caller: AccountId,
        metadata: Seq<u8>,
        supply: u128,
    ) -> LedgerState {
        match mint_outcome(self.next_id, self.balance(self.next_id, caller), supply) {
            Ok(outcome) => LedgerState {
                assets: self.assets.insert(
                    outcome.asset_id,
                    AssetView { creator: caller, metadata, supply },
                ),
                holdings: with_balance(self.holdings, outcome.asset_id, caller, outcome.owned),
                next_id: outcome.next_id,
                events: self.events.push(
                    Event::Created { creator: caller, asset_id: outcome.asset_id },
                ),
                max_length: self.max_length,
            },
            Err(_) => self,
        }
    }

    /// What a burn by `caller` returns: the supply that remains.
    pub open spec fn burn_result(
        self,
        caller: AccountId,
        asset: UniqueAssetId,
        amount: u128,
    ) -> Result<u128, Error> {
        match burn_outcome(self.recorded_supply(asset), self.balance(asset, caller), amount) {
            Ok(outcome) => Ok(outcome.total_supply),
            Err(error) => Err(error),
        }
    }

    /// The ledger after a burn by `caller`.
    pub open spec fn after_burn(
        self,
        caller: AccountId,
        asset: UniqueAssetId,
        amount: u128,
    ) -> LedgerState {
        match burn_outcome(self.recorded_supply(asset), self.balance(asset, caller), amount) {
            Ok(outcome) => LedgerState {
                assets: self.assets.insert(
                    asset,
                    AssetView { supply: outcome.total_supply, ..self.assets[asset] },
                ),
                holdings: with_balance(self.holdings, asset, caller, outcome.owned),
                next_id: self.next_id,
                events: self.events.push(
                    Event::Burned {
                        asset_id: asset,
                        owner: caller,
                        total_supply: outcome.total_supply,
                    },
                ),
                max_length: self.max_length,
            },
            Err(_) => self,
        }
    }

    /// What a transfer by `caller` returns: the amount that moved.
    pub open spec fn transfer_result(
        self,
        caller: AccountId,
        asset: UniqueAssetId,
        amount: u128,
    ) -> Result<u128, Error> {
        match transfer_outcome(
            self.assets.contains_key(asset),
            self.balance(asset, caller),
            amount,
        ) {
            Ok(outcome) => Ok(outcome.moved),
            Err(error) => Err(error),
        }
    }

    /// The ledger after a transfer from `caller` to `to`.
    pub open spec fn after_transfer(
        self,
        caller: AccountId,
        asset: UniqueAssetId,
        amount: u128,
        to: AccountId,
    ) -> LedgerState {
        match transfer_outcome(
            self.assets.contains_key(asset),
            self.balance(asset, caller),
            amount,
        ) {
            Ok(outcome) => LedgerState {
                assets: self.assets,
                holdings: credited(
                    with_balance(self.holdings, asset, caller, outcome.left),
                    asset,
                    to,
                    outcome.moved,
                ),
                next_id: self.next_id,
                events: self.events.push(
                    Event::Transferred {
                        asset_id: asset,
                        from: caller,
                        to,
                        amount: outcome.moved,
                    },
                ),
                max_length: self.max_length,
            },
            Err(_) => self,
        }
    }
}

} // verus!
