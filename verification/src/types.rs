//! The plain data of the ledger: identifiers, asset records, errors and events.

use vstd::prelude::*;

verus! {

/// Identifier of an asset. Identifiers are handed out in increasing order,
/// starting at zero.
pub type UniqueAssetId = u128;

/// Identifier of an account, as established by whoever authenticated the caller.
pub type AccountId = u64;

/// Why a transition was refused. Every refusal leaves the ledger untouched.
#[derive(Clone, Copy, Debug, PartialEq, Eq, Structural)]
pub enum Error {
    /// The asset identifier was never created.
    UnknownAssetId,
    /// The calling account holds nothing of this asset.
    NotOwned,
    /// An asset must be created with a positive supply.
    NoSupply,
}

/// What a successful transition reports to the outside.
#[derive(Clone, Copy, Debug, PartialEq, Eq, Structural)]
pub enum Event {
    /// A new asset was created.
    Created { creator: AccountId, asset_id: UniqueAssetId },
    /// Units of an asset were destroyed; `total_supply` is what remains.
    Burned { asset_id: UniqueAssetId, owner: AccountId, total_supply: u128 },
    /// Units of an asset moved from one account to another.
    Transferred { asset_id: UniqueAssetId, from: AccountId, to: AccountId, amount: u128 },
}

/// The mathematical value of an asset record.
pub struct AssetView {
    pub creator: AccountId,
    pub metadata: Seq<u8>,
    pub supply: u128,
}

/// The record the registry keeps for one asset: who created it, its
/// descriptive bytes and how many units currently exist.
#[derive(Debug)]
pub struct UniqueAssetDetails {
    creator: AccountId,
    metadata: Vec<u8>,
    supply: u128,
}

impl View for UniqueAssetDetails {
    type V = AssetView;

    closed spec fn view(&self) -> AssetView {
        AssetView { creator: self.creator, metadata: self.metadata@, supply: self.supply }
    }
}

impl UniqueAssetDetails {
    /// A record for an asset that `creator` brings into existence with `supply` units.
    pub fn new(creator: AccountId, metadata: Vec<u8>, supply: u128) -> (details: Self)
        ensures
            details@ == (AssetView { creator, metadata: metadata@, supply }),
    {
        UniqueAssetDetails { creator, metadata, supply }
    }

    /// The account that created the asset.
    pub fn creator(&self) -> (creator: AccountId)
        ensures
            creator == self@.creator,
    {
        self.creator
    }

    /// The descriptive bytes given at creation.
    pub fn metadata(&self) -> (metadata: &Vec<u8>)
        ensures
            metadata@ == self@.metadata,
    {
        &self.metadata
    }

    /// The number of units that currently exist.
    pub fn supply(&self) -> (supply: u128)
        ensures
            supply == self@.supply,
    {
        self.supply
    }

    /// Lowers the supply by `amount`.
    pub fn reduce(&mut self, amount: u128)
        requires
            amount <= old(self)@.supply,
        ensures
            final(self)@ == (AssetView { supply: (old(self)@.supply - amount) as u128, ..old(self)@ }),
    {
        self.supply = self.supply - amount;
    }
}

} // verus!
