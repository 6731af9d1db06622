//! What holds of the ledger across transitions.

use vstd::prelude::*;
use crate::allocator::successor;
use crate::model::{
    balance_in, book_of, books_finite, clipped, lemma_held_le_sum, lemma_two_held_le_sum,
    lemma_with_balance, lemma_with_balance_reads, sum_of, topped_up, with_balance,
};
use crate::state::LedgerState;
use crate::types::{AccountId, Error, UniqueAssetId};

verus! {

/// One call of a transition.
pub enum Call {
    Mint { caller: AccountId, metadata: Seq<u8>, supply: u128 },
    Burn { caller: AccountId, asset: UniqueAssetId, amount: u128 },
    Transfer { caller: AccountId, asset: UniqueAssetId, amount: u128, to: AccountId },
}

/// The ledger after one call.
pub open spec fn after_call(state: LedgerState, call: Call) -> LedgerState {
    match call {
        Call::Mint { caller, metadata, supply } => state.after_mint(caller, metadata, supply),
        Call::Burn { caller, asset, amount } => state.after_burn(caller, asset, amount),
        Call::Transfer { caller, asset, amount, to } => state.after_transfer(
            caller,
            asset,
            amount,
            to,
        ),
    }
}

/// The ledger after the calls of `calls`, made one after the other.
pub open spec fn after_calls(state: LedgerState, calls: Seq<Call>) -> LedgerState
    decreases calls.len(),
{
    if calls.len() == 0 {
        state
    } else {
        after_call(after_calls(state, calls.drop_last()), calls.last())
    }
}

/// A call that the ledger accepts as input: a mint carries no more
/// metadata than allowed.
pub open spec fn admissible(call: Call, max_length: u32) -> bool {
    call matches Call::Mint { metadata, .. } ==> metadata.len() <= max_length
}

/// One request to mint.
pub struct MintRequest {
    pub caller: AccountId,
    pub metadata: Seq<u8>,
    pub supply: u128,
}

/// The ledger after the mints of `requests`, made one after the other.
pub open spec fn after_mints(state: LedgerState, requests: Seq<MintRequest>) -> LedgerState
    decreases requests.len(),
{
    if requests.len() == 0 {
        state
    } else {
        let last = requests.last();
        after_mints(state, requests.drop_last()).after_mint(
            last.caller,
            last.metadata,
            last.supply,
        )
    }
}

/// What the mints of `requests`, made one after the other, return.
pub open spec fn mints_results(state: LedgerState, requests: Seq<MintRequest>) -> Seq<
    Result<UniqueAssetId, Error>,
>
    decreases requests.len(),
{
    if requests.len() == 0 {
        Seq::empty()
    } else {
        let last = requests.last();
        mints_results(state, requests.drop_last()).push(
            after_mints(state, requests.drop_last()).mint_result(last.caller, last.supply),
        )
    }
}

/// No balance is negative, and so no total is.
pub proof fn law_balances_not_negative(state: LedgerState, asset: UniqueAssetId, who: AccountId)
    ensures
        state.balance(asset, who) >= 0,
        state.total(asset) >= 0,
{
}

/// In the empty ledger the balances of every asset add up to its supply,
/// and the ledger is consistent.
pub proof fn law_empty_consistent(max_length: u32)
    ensures
        LedgerState::empty(max_length).consistent(),
{
    let state = LedgerState::empty(max_length);
    assert forall|asset: UniqueAssetId| #[trigger] state.total(asset) == state.supply(asset) by {
        assert(book_of(state.holdings, asset) =~= Map::<AccountId, u128>::empty());
        assert(sum_of(Map::<AccountId, u128>::empty()) == 0);
    }
}

/// A mint keeps the tables sound and, when the allocator hands out an
/// identifier that no asset carries yet, keeps the balances of every asset
/// equal to its supply. While the allocator has not reached the largest
/// identifier, the ledger stays consistent.
pub proof fn law_mint_conserves(
    state: LedgerState,
    caller: AccountId,
    metadata: Seq<u8>,
    supply: u128,
)
    requires
        books_finite(state.holdings),
        metadata.len() <= state.max_length,
    ensures
        books_finite(state.after_mint(caller, metadata, supply).holdings),
        state.well_formed() ==> state.after_mint(caller, metadata, supply).well_formed(),
        state.conserved() && !state.assets.contains_key(state.next_id) ==> state.after_mint(
            caller,
            metadata,
            supply,
        ).conserved(),
        state.consistent() && state.next_id < UniqueAssetId::MAX ==> state.after_mint(
            caller,
            metadata,
            supply,
        ).consistent(),
{
    let after = state.after_mint(caller, metadata, supply);
    if supply != 0 {
        let id = state.next_id;
        let owned = topped_up(state.balance(id, caller), supply);
        lemma_with_balance(state.holdings, id, caller, owned);
        if state.conserved() && !state.assets.contains_key(id) {
            assert(state.total(id) == state.supply(id));
            lemma_held_le_sum(book_of(state.holdings, id), caller);
            assert forall|asset: UniqueAssetId| #[trigger]
                after.total(asset) == after.supply(asset) by {
                assert(state.total(asset) == state.supply(asset));
            }
        }
    }
}

/// A burn keeps the tables sound, the balances of every asset equal to its
/// supply, and the ledger consistent.
pub proof fn law_burn_conserves(
    state: LedgerState,
    caller: AccountId,
    asset: UniqueAssetId,
    amount: u128,
)
    requires
        books_finite(state.holdings),
        state.conserved(),
    ensures
        books_finite(state.after_burn(caller, asset, amount).holdings),
        state.well_formed() ==> state.after_burn(caller, asset, amount).well_formed(),
        state.after_burn(caller, asset, amount).conserved(),
        state.consistent() ==> state.after_burn(caller, asset, amount).consistent(),
{
    let after = state.after_burn(caller, asset, amount);
    if state.burn_result(caller, asset, amount) is Ok {
        let owned = state.balance(asset, caller);
        let left = (owned - clipped(owned, amount)) as u128;
        assert(state.total(asset) == state.supply(asset));
        lemma_held_le_sum(book_of(state.holdings, asset), caller);
        lemma_with_balance(state.holdings, asset, caller, left);
        assert forall|other: UniqueAssetId| #[trigger]
            after.total(other) == after.supply(other) by {
            assert(state.total(other) == state.supply(other));
        }
        if state.well_formed() {
            assert forall|other: UniqueAssetId| #[trigger]
                after.assets.contains_key(other) implies after.assets[other].metadata.len()
                <= after.max_length by {
                assert(state.assets.contains_key(other));
            }
        }
        if state.fresh() {
            assert forall|other: UniqueAssetId| #[trigger]
                after.assets.contains_key(other) implies other < after.next_id by {
                assert(state.assets.contains_key(other));
            }
        }
    }
}

/// A transfer keeps the tables sound, the balances of every asset equal to
/// its supply, and the ledger consistent. The supply of no asset changes.
pub proof fn law_transfer_conserves(
    state: LedgerState,
    caller: AccountId,
    asset: UniqueAssetId,
    amount: u128,
    to: AccountId,
)
    requires
        books_finite(state.holdings),
    ensures
        books_finite(state.after_transfer(caller, asset, amount, to).holdings),
        state.well_formed() ==> state.after_transfer(caller, asset, amount, to).well_formed(),
        state.after_transfer(caller, asset, amount, to).assets == state.assets,
        state.conserved() ==> state.after_transfer(caller, asset, amount, to).conserved(),
        state.consistent() ==> state.after_transfer(caller, asset, amount, to).consistent(),
{
    let after = state.after_transfer(caller, asset, amount, to);
    if state.transfer_result(caller, asset, amount) is Ok {
        let owned = state.balance(asset, caller);
        let moved = clipped(owned, amount);
        let left = (owned - moved) as u128;
        let sent = with_balance(state.holdings, asset, caller, left);
        lemma_with_balance(state.holdings, asset, caller, left);
        let before = balance_in(sent, asset, to);
        lemma_with_balance(sent, asset, to, topped_up(before, moved));
        if state.conserved() {
            assert(state.total(asset) == state.supply(asset));
            if to != caller {
                lemma_two_held_le_sum(book_of(state.holdings, asset), caller, to);
            }
            assert forall|other: UniqueAssetId| #[trigger]
                after.total(other) == after.supply(other) by {
                assert(state.total(other) == state.supply(other));
            }
        }
    }
}

/// Every ledger that calls build from the empty one is consistent: the
/// balances of every asset add up to its supply. This holds as long as
/// there are fewer calls than identifiers, so that the allocator never
/// hands out the largest identifier twice.
pub proof fn law_reachable_consistent(max_length: u32, calls: Seq<Call>)
    requires
        forall|i: int| 0 <= i < calls.len() ==> admissible(#[trigger] calls[i], max_length),
        calls.len() <= UniqueAssetId::MAX,
    ensures
        after_calls(LedgerState::empty(max_length), calls).consistent(),
        after_calls(LedgerState::empty(max_length), calls).conserved(),
        after_calls(LedgerState::empty(max_length), calls).next_id <= calls.len(),
        after_calls(LedgerState::empty(max_length), calls).max_length == max_length,
    decreases calls.len(),
{
    let start = LedgerState::empty(max_length);
    if calls.len() == 0 {
        law_empty_consistent(max_length);
    } else {
        let earlier = calls.drop_last();
        assert forall|i: int| 0 <= i < earlier.len() implies admissible(
            #[trigger] earlier[i],
            max_length,
        ) by {
            assert(earlier[i] == calls[i]);
        }
        law_reachable_consistent(max_length, earlier);
        let state = after_calls(start, earlier);
        assert(admissible(calls[calls.len() - 1], max_length));
        match calls.last() {
            Call::Mint { caller, metadata, supply } => {
                law_mint_conserves(state, caller, metadata, supply);
            },
            Call::Burn { caller, asset, amount } => {
                law_burn_conserves(state, caller, asset, amount);
            },
            Call::Transfer { caller, asset, amount, to } => {
                law_transfer_conserves(state, caller, asset, amount, to);
            },
        }
    }
}

/// Moving `x` from `a` to `b` and then `x` back from `b` to `a` restores
/// what every account holds of every asset, whenever `a` holds at least `x`
/// and what `b` holds can grow by `x` without passing the largest
/// representable holding.
pub proof fn law_transfer_round_trip(
    state: LedgerState,
    asset: UniqueAssetId,
    a: AccountId,
    b: AccountId,
    x: u128,
)
    requires
        x <= state.balance(asset, a),
        state.assets.contains_key(asset) && a != b ==> state.balance(asset, b) + x <= u128::MAX,
    ensures
        ({
            let there = state.after_transfer(a, asset, x, b);
            let back = there.after_transfer(b, asset, x, a);
            &&& back.balance(asset, a) == state.balance(asset, a)
            &&& back.balance(asset, b) == state.balance(asset, b)
            &&& forall|other: UniqueAssetId, who: AccountId| #[trigger]
                back.balance(other, who) == state.balance(other, who)
            &&& back.assets == state.assets
            &&& back.next_id == state.next_id
        }),
{
    let there = state.after_transfer(a, asset, x, b);
    if state.transfer_result(a, asset, x) is Ok {
        let owned = state.balance(asset, a);
        let left = (owned - x) as u128;
        let sent = with_balance(state.holdings, asset, a, left);
        lemma_with_balance_reads(state.holdings, asset, a, left);
        lemma_with_balance_reads(sent, asset, b, topped_up(balance_in(sent, asset, b), x));
    }
    if there.transfer_result(b, asset, x) is Ok {
        let owned = there.balance(asset, b);
        let moved = clipped(owned, x);
        let left = (owned - moved) as u128;
        let sent = with_balance(there.holdings, asset, b, left);
        lemma_with_balance_reads(there.holdings, asset, b, left);
        lemma_with_balance_reads(sent, asset, a, topped_up(balance_in(sent, asset, a), moved));
    }
}

/// In a ledger whose balances add up to its supplies, moving `x` from `a`
/// to `b` and then `x` back from `b` to `a` restores what every account
/// holds, for any `x` that `a` holds.
pub proof fn law_transfer_round_trip_conserved(
    state: LedgerState,
    asset: UniqueAssetId,
    a: AccountId,
    b: AccountId,
    x: u128,
)
    requires
        books_finite(state.holdings),
        state.conserved(),
        x <= state.balance(asset, a),
    ensures
        ({
            let there = state.after_transfer(a, asset, x, b);
            let back = there.after_transfer(b, asset, x, a);
            &&& back.balance(asset, a) == state.balance(asset, a)
            &&& back.balance(asset, b) == state.balance(asset, b)
            &&& forall|other: UniqueAssetId, who: AccountId| #[trigger]
                back.balance(other, who) == state.balance(other, who)
            &&& back.assets == state.assets
            &&& back.next_id == state.next_id
        }),
{
    assert(state.total(asset) == state.supply(asset));
    if a != b {
        lemma_two_held_le_sum(book_of(state.holdings, asset), a, b);
    }
    law_transfer_round_trip(state, asset, a, b, x);
}

/// Mints made one after the other, each with a positive supply, return
/// identifiers that count up from the allocator's next identifier, as long
/// as the allocator does not run past the largest identifier: they are
/// distinct and strictly increasing.
pub proof fn law_sequential_mints_ids(state: LedgerState, requests: Seq<MintRequest>)
    requires
        forall|i: int| 0 <= i < requests.len() ==> (#[trigger] requests[i]).supply != 0,
        state.next_id + requests.len() <= UniqueAssetId::MAX + 1,
    ensures
        mints_results(state, requests).len() == requests.len(),
        forall|i: int|
            0 <= i < requests.len() ==> #[trigger] mints_results(state, requests)[i] == Ok::<
                UniqueAssetId,
                Error,
            >((state.next_id + i) as UniqueAssetId),
        forall|i: int, j: int|
            0 <= i < j < requests.len() ==> (#[trigger] mints_results(state, requests)[i])->Ok_0
                < (#[trigger] mints_results(state, requests)[j])->Ok_0,
        requests.len() > 0 ==> after_mints(state, requests).next_id == successor(
            (state.next_id + requests.len() - 1) as UniqueAssetId,
        ),
        requests.len() == 0 ==> after_mints(state, requests).next_id == state.next_id,
    decreases requests.len(),
{
    if requests.len() > 0 {
        let earlier = requests.drop_last();
        assert forall|i: int| 0 <= i < earlier.len() implies (#[trigger] earlier[i]).supply
            != 0 by {
            assert(earlier[i] == requests[i]);
        }
        law_sequential_mints_ids(state, earlier);
        let results = mints_results(state, requests);
        let before = mints_results(state, earlier);
        assert(requests.last().supply != 0);
        assert forall|i: int| 0 <= i < requests.len() implies #[trigger] results[i] == Ok::<
            UniqueAssetId,
            Error,
        >((state.next_id + i) as UniqueAssetId) by {
            if i < earlier.len() {
                assert(results[i] == before[i]);
            }
        }
    }
}

} // verus!
