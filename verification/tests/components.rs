use pallet_nft::allocator::IdAllocator;
use pallet_nft::balances::BalanceLedger;
use pallet_nft::registry::AssetRegistry;
use pallet_nft::rules::{self, BurnOutcome, MintOutcome, TransferOutcome};
use pallet_nft::{Error, UniqueAssetDetails, UniqueAssetId};

#[test]
fn allocator_counts_up_from_zero() {
    let mut ids = IdAllocator::new();
    assert_eq!(ids.peek(), 0);
    assert_eq!(ids.next(), 0);
    assert_eq!(ids.next(), 1);
    assert_eq!(ids.next(), 2);
    assert_eq!(ids.peek(), 3);
}

#[test]
fn allocator_stays_at_the_largest_id() {
    let mut ids = IdAllocator::starting_at(UniqueAssetId::MAX - 1);
    assert_eq!(ids.next(), UniqueAssetId::MAX - 1);
    assert_eq!(ids.next(), UniqueAssetId::MAX);
    assert_eq!(ids.next(), UniqueAssetId::MAX);
    assert_eq!(ids.peek(), UniqueAssetId::MAX);
}

#[test]
fn unwritten_balance_reads_as_zero() {
    let ledger = BalanceLedger::new();
    assert_eq!(ledger.get(0, 1), 0);
    assert_eq!(ledger.get(u128::MAX, u64::MAX), 0);
}

#[test]
fn credit_adds_to_the_holding() {
    let mut ledger = BalanceLedger::new();
    ledger.credit(3, 1, 40);
    ledger.credit(3, 1, 2);
    ledger.credit(3, 2, 5);
    ledger.credit(4, 1, 7);
    assert_eq!(ledger.get(3, 1), 42);
    assert_eq!(ledger.get(3, 2), 5);
    assert_eq!(ledger.get(4, 1), 7);
    assert_eq!(ledger.get(4, 2), 0);
}

#[test]
fn credit_stops_at_the_largest_holding() {
    let mut ledger = BalanceLedger::new();
    ledger.credit(0, 1, u128::MAX - 1);
    ledger.credit(0, 1, 1);
    assert_eq!(ledger.get(0, 1), u128::MAX);
    ledger.credit(0, 1, 1);
    assert_eq!(ledger.get(0, 1), u128::MAX);
    ledger.credit(0, 1, u128::MAX);
    assert_eq!(ledger.get(0, 1), u128::MAX);
}

#[test]
fn debit_returns_what_it_took() {
    let mut ledger = BalanceLedger::new();
    ledger.credit(0, 1, 100);
    assert_eq!(ledger.debit(0, 1, 30), 30);
    assert_eq!(ledger.get(0, 1), 70);
    assert_eq!(ledger.debit(0, 1, 70), 70);
    assert_eq!(ledger.get(0, 1), 0);
}

#[test]
fn debit_beyond_the_holding_empties_it() {
    let mut ledger = BalanceLedger::new();
    ledger.credit(0, 1, 100);
    assert_eq!(ledger.debit(0, 1, 101), 100);
    assert_eq!(ledger.get(0, 1), 0);
    assert_eq!(ledger.debit(0, 1, 1), 0);
    assert_eq!(ledger.debit(9, 9, u128::MAX), 0);
    assert_eq!(ledger.get(9, 9), 0);
}

#[test]
fn registry_creates_under_the_next_id() {
    let mut ids = IdAllocator::new();
    let mut registry = AssetRegistry::new();
    assert!(registry.get(0).is_none());
    assert_eq!(registry.create(&mut ids, 7, vec![1, 2], 10), 0);
    assert_eq!(registry.create(&mut ids, 8, vec![3], 20), 1);
    assert_eq!(ids.peek(), 2);
    let first = registry.get(0).expect("created");
    assert_eq!((first.creator(), first.metadata().clone(), first.supply()), (7, vec![1, 2], 10));
    let second = registry.get(1).expect("created");
    assert_eq!((second.creator(), second.metadata().clone(), second.supply()), (8, vec![3], 20));
    assert!(registry.get(2).is_none());
}

#[test]
fn registry_reduces_supply_and_keeps_the_rest() {
    let mut ids = IdAllocator::new();
    let mut registry = AssetRegistry::new();
    let id: UniqueAssetId = registry.create(&mut ids, 7, vec![1, 2], 10);
    assert_eq!(registry.reduce_supply(id, 4), Ok(()));
    let details = registry.get(id).expect("created");
    assert_eq!((details.creator(), details.metadata().clone(), details.supply()), (7, vec![1, 2], 6));
    assert_eq!(registry.reduce_supply(id, 6), Ok(()));
    assert_eq!(registry.get(id).expect("still there").supply(), 0);
}

#[test]
fn registry_reports_unknown_asset() {
    let mut registry = AssetRegistry::new();
    assert_eq!(registry.reduce_supply(5, 0), Err(Error::UnknownAssetId));
    assert!(registry.get(5).is_none());
}

#[test]
fn details_remember_what_they_were_made_with() {
    let mut details = UniqueAssetDetails::new(3, vec![4, 5], 60);
    assert_eq!(details.creator(), 3);
    assert_eq!(details.metadata(), &vec![4u8, 5]);
    assert_eq!(details.supply(), 60);
    details.reduce(25);
    assert_eq!(details.supply(), 35);
    assert_eq!(details.creator(), 3);
}

#[test]
fn mint_rule() {
    assert_eq!(rules::mint(4, 0, 0), Err(Error::NoSupply));
    assert_eq!(rules::mint(4, 0, 9), Ok(MintOutcome { asset_id: 4, next_id: 5, owned: 9 }));
    assert_eq!(
        rules::mint(u128::MAX, 3, u128::MAX),
        Ok(MintOutcome { asset_id: u128::MAX, next_id: u128::MAX, owned: u128::MAX })
    );
}

#[test]
fn burn_rule() {
    assert_eq!(rules::burn(None, 5, 1), Err(Error::UnknownAssetId));
    assert_eq!(rules::burn(None, 0, 1), Err(Error::UnknownAssetId));
    assert_eq!(rules::burn(Some(10), 0, 1), Err(Error::NotOwned));
    assert_eq!(rules::burn(Some(10), 4, 3), Ok(BurnOutcome { owned: 1, total_supply: 7 }));
    assert_eq!(rules::burn(Some(10), 4, 9), Ok(BurnOutcome { owned: 0, total_supply: 6 }));
    assert_eq!(rules::burn(Some(10), 10, 0), Ok(BurnOutcome { owned: 10, total_supply: 10 }));
}

#[test]
fn transfer_rule() {
    assert_eq!(rules::transfer(false, 5, 1), Err(Error::UnknownAssetId));
    assert_eq!(rules::transfer(true, 0, 1), Err(Error::NotOwned));
    assert_eq!(rules::transfer(true, 5, 2), Ok(TransferOutcome { left: 3, moved: 2 }));
    assert_eq!(rules::transfer(true, 5, 6), Ok(TransferOutcome { left: 0, moved: 5 }));
    assert_eq!(rules::receive(7, 5), 12);
    assert_eq!(rules::receive(u128::MAX - 1, 5), u128::MAX);
}
