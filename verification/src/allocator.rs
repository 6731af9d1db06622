//! The source of fresh asset identifiers.

use vstd::prelude::*;
use crate::types::UniqueAssetId;

verus! {

/// The identifier that follows `id`: one more, except that the largest
/// identifier is followed by itself.
pub open spec fn successor(id: UniqueAssetId) -> UniqueAssetId {
    if id == UniqueAssetId::MAX {
        id
    } else {
        (id + 1) as UniqueAssetId
    }
}

/// Hands out asset identifiers in increasing order. Once the largest
/// identifier has been reached it is handed out again and again.
pub struct IdAllocator {
    next_id: UniqueAssetId,
}

impl View for IdAllocator {
    type V = UniqueAssetId;

    /// The identifier that the next call of `next` returns.
    closed spec fn view(&self) -> UniqueAssetId {
        self.next_id
    }
}

impl IdAllocator {
    /// An allocator whose first identifier is zero.
    pub fn new() -> (ids: Self)
        ensures
            ids@ == 0,
    {
        IdAllocator { next_id: 0 }
    }

    /// An allocator whose first identifier is `next_id`.
    pub fn starting_at(next_id: UniqueAssetId) -> (ids: Self)
        ensures
            ids@ == next_id,
    {
        IdAllocator { next_id }
    }

    /// The identifier that the next call of `next` returns.
    pub fn peek(&self) -> (id: UniqueAssetId)
        ensures
            id == self@,
    {
        self.next_id
    }

    /// Returns the current identifier and moves on to its successor.
    pub fn next(&mut self) -> (id: UniqueAssetId)
        ensures
            id == old(self)@,
            final(self)@ == successor(old(self)@),
    {
        let id = self.next_id;
        self.next_id = id.saturating_add(1);
        id
    }
}

} // verus!
