//! The mathematical model of the balance table: per asset, a finite book that
//! maps the accounts that were ever written to what they hold.

use vstd::prelude::*;
use crate::types::{AccountId, UniqueAssetId};

verus! {

/// The sum of all the balances in one book.
pub open spec fn sum_of(book: Map<AccountId, u128>) -> nat
    decreases book.dom().len(),
    when book.dom().finite()
{
    if book.dom().is_empty() {
        0
    } else {
        let who = book.dom().choose();
        book[who] as nat + sum_of(book.remove(who))
    }
}

/// What `who` holds according to `book`: nothing, if the book has no entry.
pub open spec fn held(book: Map<AccountId, u128>, who: AccountId) -> u128 {
    if book.contains_key(who) {
        book[who]
    } else {
        0
    }
}

/// Any one entry can be split off the sum of a book.
pub proof fn lemma_sum_split(book: Map<AccountId, u128>, who: AccountId)
    requires
        book.dom().finite(),
        book.contains_key(who),
    ensures
        sum_of(book) == book[who] as nat + sum_of(book.remove(who)),
    decreases book.dom().len(),
{
    let first = book.dom().choose();
    if first != who {
        lemma_sum_split(book.remove(first), who);
        lemma_sum_split(book.remove(who), first);
        assert(book.remove(first).remove(who) =~= book.remove(who).remove(first));
    }
}

/// Writing one entry changes the sum by the difference between the new and
/// the old holding.
pub proof fn lemma_sum_insert(book: Map<AccountId, u128>, who: AccountId, value: u128)
    requires
        book.dom().finite(),
    ensures
        book.insert(who, value).dom().finite(),
        sum_of(book.insert(who, value)) == sum_of(book) - held(book, who) + value,
{
    let after = book.insert(who, value);
    lemma_sum_split(after, who);
    assert(after.remove(who) =~= book.remove(who));
    if book.contains_key(who) {
        lemma_sum_split(book, who);
    } else {
        assert(book.remove(who) =~= book);
    }
}

/// No holding exceeds the sum of its book.
pub proof fn lemma_held_le_sum(book: Map<AccountId, u128>, who: AccountId)
    requires
        book.dom().finite(),
    ensures
        held(book, who) <= sum_of(book),
{
    if book.contains_key(who) {
        lemma_sum_split(book, who);
    }
}

/// Two different accounts together hold no more than the sum of their book.
pub proof fn lemma_two_held_le_sum(book: Map<AccountId, u128>, a: AccountId, b: AccountId)
    requires
        book.dom().finite(),
        a != b,
    ensures
        held(book, a) + held(book, b) <= sum_of(book),
{
    if book.contains_key(a) {
        lemma_sum_split(book, a);
        lemma_held_le_sum(book.remove(a), b);
    } else {
        lemma_held_le_sum(book, b);
    }
}

/// The book of one asset: empty, if nothing of the asset was ever written.
pub open spec fn book_of(
    holdings: Map<UniqueAssetId, Map<AccountId, u128>>,
    asset: UniqueAssetId,
) -> Map<AccountId, u128> {
    if holdings.contains_key(asset) {
        holdings[asset]
    } else {
        Map::empty()
    }
}

/// What `who` holds of `asset`: zero for any entry never written.
pub open spec fn balance_in(
    holdings: Map<UniqueAssetId, Map<AccountId, u128>>,
    asset: UniqueAssetId,
    who: AccountId,
) -> u128 {
    held(book_of(holdings, asset), who)
}

/// The sum, over all accounts, of what they hold of `asset`.
pub open spec fn total_in(
    holdings: Map<UniqueAssetId, Map<AccountId, u128>>,
    asset: UniqueAssetId,
) -> nat {
    sum_of(book_of(holdings, asset))
}

/// Every book has finitely many entries.
pub open spec fn books_finite(holdings: Map<UniqueAssetId, Map<AccountId, u128>>) -> bool {
    forall|asset: UniqueAssetId| #[trigger]
        holdings.contains_key(asset) ==> holdings[asset].dom().finite()
}

/// The table in which `who` holds exactly `value` of `asset` and every other
/// entry is as in `holdings`.
pub open spec fn with_balance(
    holdings: Map<UniqueAssetId, Map<AccountId, u128>>,
    asset: UniqueAssetId,
    who: AccountId,
    value: u128,
) -> Map<UniqueAssetId, Map<AccountId, u128>> {
    holdings.insert(asset, book_of(holdings, asset).insert(who, value))
}

/// The part of a requested `amount` that a holding of `balance` can give:
/// the lesser of the two.
pub open spec fn clipped(balance: u128, amount: u128) -> u128 {
    if amount <= balance {
        amount
    } else {
        balance
    }
}

/// A holding of `balance` after `amount` is added: the sum, or the largest
/// representable holding where the sum would exceed it.
pub open spec fn topped_up(balance: u128, amount: u128) -> u128 {
    if balance + amount > u128::MAX {
        u128::MAX
    } else {
        (balance + amount) as u128
    }
}

/// The table after `amount` is added to what `who` holds of `asset`.
pub open spec fn credited(
    holdings: Map<UniqueAssetId, Map<AccountId, u128>>,
    asset: UniqueAssetId,
    who: AccountId,
    amount: u128,
) -> Map<UniqueAssetId, Map<AccountId, u128>> {
    with_balance(holdings, asset, who, topped_up(balance_in(holdings, asset, who), amount))
}

/// The table after as much of `amount` as `who` holds of `asset` is taken away.
pub open spec fn debited(
    holdings: Map<UniqueAssetId, Map<AccountId, u128>>,
    asset: UniqueAssetId,
    who: AccountId,
    amount: u128,
) -> Map<UniqueAssetId, Map<AccountId, u128>> {
    let balance = balance_in(holdings, asset, who);
    with_balance(holdings, asset, who, (balance - clipped(balance, amount)) as u128)
}

/// Writing one holding changes what that account holds of that asset, and
/// no other balance.
pub proof fn lemma_with_balance_reads(
    holdings: Map<UniqueAssetId, Map<AccountId, u128>>,
    asset: UniqueAssetId,
    who: AccountId,
    value: u128,
)
    ensures
        balance_in(with_balance(holdings, asset, who, value), asset, who) == value,
        forall|a: UniqueAssetId, w: AccountId|
            a != asset || w != who ==> #[trigger] balance_in(
                with_balance(holdings, asset, who, value),
                a,
                w,
            ) == balance_in(holdings, a, w),
{
}

/// Writing one holding changes that holding and the total of its asset, and
/// nothing else.
pub proof fn lemma_with_balance(
    holdings: Map<UniqueAssetId, Map<AccountId, u128>>,
    asset: UniqueAssetId,
    who: AccountId,
    value: u128,
)
    requires
        books_finite(holdings),
    ensures
        books_finite(with_balance(holdings, asset, who, value)),
        balance_in(with_balance(holdings, asset, who, value), asset, who) == value,
        forall|a: UniqueAssetId, w: AccountId|
            a != asset || w != who ==> #[trigger] balance_in(
                with_balance(holdings, asset, who, value),
                a,
                w,
            ) == balance_in(holdings, a, w),
        total_in(with_balance(holdings, asset, who, value), asset) == total_in(holdings, asset)
            - balance_in(holdings, asset, who) + value,
        forall|a: UniqueAssetId|
            a != asset ==> #[trigger] total_in(with_balance(holdings, asset, who, value), a)
                == total_in(holdings, a),
{
    lemma_sum_insert(book_of(holdings, asset), who, value);
}

} // verus!
