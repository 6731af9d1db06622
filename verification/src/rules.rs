//! The three transitions as decisions on plain quantities: given what the
//! tables hold for the entries that a call touches, what the call returns
//! and what those entries hold afterwards.
//!
//! A host that keeps the tables elsewhere reads the entries, asks here, and
//! writes the outcome back.

use vstd::prelude::*;
use crate::allocator::successor;
use crate::model::{clipped, topped_up};
use crate::types::{Error, UniqueAssetId};

verus! {

/// What a successful mint decides.
#[derive(Clone, Copy, Debug, PartialEq, Eq, Structural)]
pub struct MintOutcome {
    /// The identifier of the new asset.
    pub asset_id: UniqueAssetId,
    /// The identifier that the allocator hands out next.
    pub next_id: UniqueAssetId,
    /// What the creator holds of the new asset.
    pub owned: u128,
}

/// What a successful burn decides.
#[derive(Clone, Copy, Debug, PartialEq, Eq, Structural)]
pub struct BurnOutcome {
    /// What the owner still holds.
    pub owned: u128,
    /// The supply that remains.
    pub total_supply: u128,
}

/// What a successful transfer decides for the sending side.
#[derive(Clone, Copy, Debug, PartialEq, Eq, Structural)]
pub struct TransferOutcome {
    /// What the sender still holds.
    pub left: u128,
    /// The amount that moves to the receiver.
    pub moved: u128,
}

/// The decision of a mint, where `nonce` is the allocator's next identifier
/// and `owned` is what the creator already holds under that identifier.
pub open spec fn mint_outcome(nonce: UniqueAssetId, owned: u128, supply: u128) -> Result<
    MintOutcome,
    Error,
> {
    if supply == 0 {
        Err(Error::NoSupply)
    } else {
        Ok(
            MintOutcome {
                asset_id: nonce,
                next_id: successor(nonce),
                owned: topped_up(owned, supply),
            },
        )
    }
}

/// The decision of a burn, where `supply` is the recorded supply of the
/// asset, if it was created, and `owned` is what the caller holds of it.
pub open spec fn burn_outcome(supply: Option<u128>, owned: u128, amount: u128) -> Result<
    BurnOutcome,
    Error,
> {
    match supply {
        None => Err(Error::UnknownAssetId),
        Some(supply) => if owned == 0 {
            Err(Error::NotOwned)
        } else {
            Ok(
                BurnOutcome {
                    owned: (owned - clipped(owned, amount)) as u128,
                    total_supply: (supply - clipped(owned, amount)) as u128,
                },
            )
        },
    }
}

/// The decision of a transfer, where `known` says whether the asset was
/// created and `owned` is what the caller holds of it.
pub open spec fn transfer_outcome(known: bool, owned: u128, amount: u128) -> Result<
    TransferOutcome,
    Error,
> {
    if !known {
        Err(Error::UnknownAssetId)
    } else if owned == 0 {
        Err(Error::NotOwned)
    } else {
        Ok(
            TransferOutcome {
                left: (owned - clipped(owned, amount)) as u128,
                moved: clipped(owned, amount),
            },
        )
    }
}

/// Decides a mint: refuses a supply of zero; otherwise the new asset takes
/// the identifier `nonce`, the allocator moves to its successor, and the
/// creator's holding under that identifier grows by `supply`.
pub fn mint(nonce: UniqueAssetId, owned: u128, supply: u128) -> (outcome: Result<
    MintOutcome,
    Error,
>)
    ensures
        outcome == mint_outcome(nonce, owned, supply),
{
    if supply == 0 {
        Err(Error::NoSupply)
    } else {
        Ok(
            MintOutcome {
                asset_id: nonce,
                next_id: nonce.saturating_add(1),
                owned: owned.saturating_add(supply),
            },
        )
    }
}

/// Decides a burn: refuses an asset that was never created, then a caller
/// who holds nothing; otherwise the lesser of `amount` and the holding
/// leaves both the holding and the supply.
///
/// A holding is part of the supply of its asset, so it does not exceed it.
pub fn burn(supply: Option<u128>, owned: u128, amount: u128) -> (outcome: Result<
    BurnOutcome,
    Error,
>)
    requires
        supply matches Some(units) ==> owned <= units,
    ensures
        outcome == burn_outcome(supply, owned, amount),
{
    match supply {
        None => Err(Error::UnknownAssetId),
        Some(units) => {
            if owned == 0 {
                Err(Error::NotOwned)
            } else {
                let burned = if amount <= owned { amount } else { owned };
                Ok(BurnOutcome { owned: owned - burned, total_supply: units - burned })
            }
        },
    }
}

/// Decides the sending side of a transfer: refuses an asset that was never
/// created, then a caller who holds nothing; otherwise the lesser of
/// `amount` and the holding leaves the sender.
pub fn transfer(known: bool, owned: u128, amount: u128) -> (outcome: Result<
    TransferOutcome,
    Error,
>)
    ensures
        outcome == transfer_outcome(known, owned, amount),
{
    if !known {
        Err(Error::UnknownAssetId)
    } else if owned == 0 {
        Err(Error::NotOwned)
    } else {
        let moved = if amount <= owned { amount } else { owned };
        Ok(TransferOutcome { left: owned - moved, moved })
    }
}

/// Decides the receiving side of a transfer: the holding grows by `amount`,
/// up to the largest representable holding.
pub fn receive(balance: u128, amount: u128) -> (after: u128)
    ensures
        after == topped_up(balance, amount),
{
    balance.saturating_add(amount)
}

} // verus!
