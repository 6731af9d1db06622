//! The registry of assets: for each identifier that was created, its record.

use vstd::prelude::*;
use std::collections::HashMap;
use crate::allocator::{successor, IdAllocator};
use crate::types::{AccountId, AssetView, Error, UniqueAssetDetails, UniqueAssetId};

verus! {

broadcast use vstd::std_specs::hash::group_hash_axioms;

/// The record of `id` with its supply lowered by `amount`.
pub open spec fn reduced(
    assets: Map<UniqueAssetId, AssetView>,
    id: UniqueAssetId,
    amount: u128,
) -> Map<UniqueAssetId, AssetView> {
    assets.insert(id, AssetView { supply: (assets[id].supply - amount) as u128, ..assets[id] })
}

/// Maps each created asset to its record. A record is created once and
/// never removed; only its supply changes.
pub struct AssetRegistry {
    assets: HashMap<UniqueAssetId, UniqueAssetDetails>,
}

impl View for AssetRegistry {
    type V = Map<UniqueAssetId, AssetView>;

    closed spec fn view(&self) -> Map<UniqueAssetId, AssetView> {
        self.assets@.map_values(|details: UniqueAssetDetails| details@)
    }
}

impl AssetRegistry {
    /// A registry without assets.
    pub fn new() -> (registry: Self)
        ensures
            registry@ == Map::<UniqueAssetId, AssetView>::empty(),
    {
        let registry = AssetRegistry { assets: HashMap::new() };
        assert(registry@ =~= Map::<UniqueAssetId, AssetView>::empty());
        registry
    }

    /// Takes the next identifier from `ids` and stores under it a record
    /// with the given creator, metadata and supply. Returns the identifier.
    ///
    /// The caller has already refused a supply of zero.
    pub fn create(
        &mut self,
        ids: &mut IdAllocator,
        creator: AccountId,
        metadata: Vec<u8>,
        initial_supply: u128,
    ) -> (id: UniqueAssetId)
        requires
            initial_supply != 0,
        ensures
            id == old(ids)@,
            final(ids)@ == successor(old(ids)@),
            final(self)@ == old(self)@.insert(
                id,
                AssetView { creator, metadata: metadata@, supply: initial_supply },
            ),
    {
        let id = ids.next();
        let details = UniqueAssetDetails::new(creator, metadata, initial_supply);
        self.assets.insert(id, details);
        assert(final(self)@ =~= old(self)@.insert(
            id,
            AssetView { creator, metadata: metadata@, supply: initial_supply },
        ));
        id
    }

    /// The record of `id`, if that asset was created.
    pub fn get(&self, id: UniqueAssetId) -> (found: Option<&UniqueAssetDetails>)
        ensures
            match found {
                Some(details) => self@.contains_key(id) && details@ == self@[id],
                None => !self@.contains_key(id),
            },
    {
        self.assets.get(&id)
    }

    /// Lowers the supply of `id` by `amount`, or reports that the asset was
    /// never created and changes nothing.
    ///
    /// The caller guarantees that `amount` does not exceed the supply.
    pub fn reduce_supply(&mut self, id: UniqueAssetId, amount: u128) -> (result: Result<(), Error>)
        requires
            old(self)@.contains_key(id) ==> amount <= old(self)@[id].supply,
        ensures
            result is Ok <==> old(self)@.contains_key(id),
            result is Err ==> result == Err::<(), Error>(Error::UnknownAssetId),
            result is Ok ==> final(self)@ == reduced(old(self)@, id, amount),
            result is Err ==> final(self)@ == old(self)@,
    {
        match self.assets.remove(&id) {
            Some(mut details) => {
                details.reduce(amount);
                self.assets.insert(id, details);
                assert(final(self)@ =~= reduced(old(self)@, id, amount));
                Ok(())
            },
            None => {
                assert(final(self)@ =~= old(self)@);
                Err(Error::UnknownAssetId)
            },
        }
    }
}

} // verus!
