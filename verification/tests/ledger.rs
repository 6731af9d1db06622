use pallet_nft::{Error, Event, Pallet, UniqueAssetId};

const ALICE: u64 = 1;
const BOB: u64 = 2;
const CAROL: u64 = 3;

fn supply_of(ledger: &Pallet, asset_id: UniqueAssetId) -> u128 {
    ledger.unique_asset(asset_id).expect("the asset exists").supply()
}

#[test]
fn fresh_ledger_is_empty() {
    let ledger = Pallet::new(20);
    assert_eq!(ledger.nonce(), 0);
    assert_eq!(ledger.max_length(), 20);
    assert!(ledger.unique_asset(0).is_none());
    assert_eq!(ledger.account(0, ALICE), 0);
    assert!(ledger.events().is_empty());
}

#[test]
fn mint_creates_asset_and_credits_creator() {
    let mut ledger = Pallet::new(20);
    let id = ledger.mint(ALICE, vec![1, 2, 3], 100);
    assert_eq!(id, Ok(0));
    let details = ledger.unique_asset(0).expect("the asset exists");
    assert_eq!(details.creator(), ALICE);
    assert_eq!(details.metadata(), &vec![1u8, 2, 3]);
    assert_eq!(details.supply(), 100);
    assert_eq!(ledger.account(0, ALICE), 100);
    assert_eq!(ledger.account(0, BOB), 0);
    assert_eq!(ledger.nonce(), 1);
    assert_eq!(ledger.events(), &vec![Event::Created { creator: ALICE, asset_id: 0 }]);
}

#[test]
fn mint_rejects_zero_supply() {
    let mut ledger = Pallet::new(20);
    assert_eq!(ledger.mint(ALICE, vec![7], 0), Err(Error::NoSupply));
    assert!(ledger.unique_asset(0).is_none());
    assert_eq!(ledger.nonce(), 0);
    assert_eq!(ledger.account(0, ALICE), 0);
    assert!(ledger.events().is_empty());
}

#[test]
fn mint_accepts_metadata_of_the_full_length() {
    let mut ledger = Pallet::new(4);
    assert_eq!(ledger.mint(ALICE, vec![9, 9, 9, 9], 1), Ok(0));
    assert_eq!(ledger.unique_asset(0).expect("the asset exists").metadata().len(), 4);
}

#[test]
fn burn_unknown_asset_is_rejected() {
    let mut ledger = Pallet::new(20);
    assert_eq!(ledger.burn(ALICE, 9999, 1), Err(Error::UnknownAssetId));
    assert!(ledger.events().is_empty());
    assert_eq!(ledger.nonce(), 0);
}

#[test]
fn burn_by_someone_who_owns_nothing_is_rejected() {
    let mut ledger = Pallet::new(20);
    let id: UniqueAssetId = ledger.mint(ALICE, vec![], 100).unwrap();
    assert_eq!(ledger.burn(BOB, id, 1), Err(Error::NotOwned));
    assert_eq!(ledger.account(id, ALICE), 100);
    assert_eq!(ledger.account(id, BOB), 0);
    assert_eq!(supply_of(&ledger, id), 100);
    assert_eq!(ledger.events().len(), 1);
}

#[test]
fn unknown_asset_is_reported_before_ownership() {
    let mut ledger = Pallet::new(20);
    ledger.mint(ALICE, vec![], 100).unwrap();
    assert_eq!(ledger.burn(BOB, 1, 1), Err(Error::UnknownAssetId));
    assert_eq!(ledger.transfer(BOB, 1, 1, ALICE), Err(Error::UnknownAssetId));
}

#[test]
fn burn_takes_the_requested_amount() {
    let mut ledger = Pallet::new(20);
    let id: UniqueAssetId = ledger.mint(ALICE, vec![], 100).unwrap();
    assert_eq!(ledger.burn(ALICE, id, 30), Ok(70));
    assert_eq!(ledger.account(id, ALICE), 70);
    assert_eq!(supply_of(&ledger, id), 70);
    assert_eq!(
        ledger.events().last(),
        Some(&Event::Burned { asset_id: id, owner: ALICE, total_supply: 70 })
    );
}

#[test]
fn burn_is_clipped_to_the_holding() {
    let mut ledger = Pallet::new(20);
    let id: UniqueAssetId = ledger.mint(ALICE, vec![], 100).unwrap();
    assert_eq!(ledger.burn(ALICE, id, 1000), Ok(0));
    assert_eq!(supply_of(&ledger, id), 0);
    assert_eq!(ledger.account(id, ALICE), 0);
}

#[test]
fn asset_burned_to_zero_stays_registered() {
    let mut ledger = Pallet::new(20);
    let id: UniqueAssetId = ledger.mint(ALICE, vec![5], 10).unwrap();
    assert_eq!(ledger.burn(ALICE, id, 10), Ok(0));
    let details = ledger.unique_asset(id).expect("the asset stays");
    assert_eq!(details.creator(), ALICE);
    assert_eq!(details.supply(), 0);
    assert_eq!(ledger.burn(ALICE, id, 1), Err(Error::NotOwned));
}

#[test]
fn burn_of_zero_succeeds_and_changes_no_quantity() {
    let mut ledger = Pallet::new(20);
    let id: UniqueAssetId = ledger.mint(ALICE, vec![], 100).unwrap();
    assert_eq!(ledger.burn(ALICE, id, 0), Ok(100));
    assert_eq!(ledger.account(id, ALICE), 100);
    assert_eq!(ledger.events().len(), 2);
}

#[test]
fn burn_by_a_holder_who_is_not_the_creator() {
    let mut ledger = Pallet::new(20);
    let id: UniqueAssetId = ledger.mint(ALICE, vec![], 100).unwrap();
    assert_eq!(ledger.transfer(ALICE, id, 40, BOB), Ok(40));
    assert_eq!(ledger.burn(BOB, id, 15), Ok(85));
    assert_eq!(ledger.account(id, ALICE), 60);
    assert_eq!(ledger.account(id, BOB), 25);
    assert_eq!(supply_of(&ledger, id), 85);
}

#[test]
fn transfer_moves_the_requested_amount() {
    let mut ledger = Pallet::new(20);
    let id: UniqueAssetId = ledger.mint(ALICE, vec![], 50).unwrap();
    assert_eq!(ledger.transfer(ALICE, id, 20, BOB), Ok(20));
    assert_eq!(ledger.account(id, ALICE), 30);
    assert_eq!(ledger.account(id, BOB), 20);
    assert_eq!(supply_of(&ledger, id), 50);
    assert_eq!(
        ledger.events().last(),
        Some(&Event::Transferred { asset_id: id, from: ALICE, to: BOB, amount: 20 })
    );
}

#[test]
fn transfer_is_clipped_to_the_holding() {
    let mut ledger = Pallet::new(20);
    let id: UniqueAssetId = ledger.mint(ALICE, vec![], 50).unwrap();
    assert_eq!(ledger.transfer(ALICE, id, 1000, BOB), Ok(50));
    assert_eq!(ledger.account(id, ALICE), 0);
    assert_eq!(ledger.account(id, BOB), 50);
    assert_eq!(supply_of(&ledger, id), 50);
}

#[test]
fn transfer_of_unknown_asset_is_rejected() {
    let mut ledger = Pallet::new(20);
    assert_eq!(ledger.transfer(ALICE, 9999, 1, BOB), Err(Error::UnknownAssetId));
    assert!(ledger.events().is_empty());
}

#[test]
fn transfer_by_someone_who_owns_nothing_is_rejected() {
    let mut ledger = Pallet::new(20);
    let id: UniqueAssetId = ledger.mint(ALICE, vec![], 50).unwrap();
    assert_eq!(ledger.transfer(BOB, id, 1, CAROL), Err(Error::NotOwned));
    assert_eq!(ledger.account(id, ALICE), 50);
    assert_eq!(ledger.account(id, BOB), 0);
    assert_eq!(ledger.account(id, CAROL), 0);
    assert_eq!(ledger.events().len(), 1);
}

#[test]
fn transfer_to_oneself_keeps_the_holding_and_is_reported() {
    let mut ledger = Pallet::new(20);
    let id: UniqueAssetId = ledger.mint(ALICE, vec![], 50).unwrap();
    assert_eq!(ledger.transfer(ALICE, id, 70, ALICE), Ok(50));
    assert_eq!(ledger.account(id, ALICE), 50);
    assert_eq!(supply_of(&ledger, id), 50);
    assert_eq!(
        ledger.events().last(),
        Some(&Event::Transferred { asset_id: id, from: ALICE, to: ALICE, amount: 50 })
    );
}

#[test]
fn transfer_there_and_back_restores_both_holdings() {
    let mut ledger = Pallet::new(20);
    let id: UniqueAssetId = ledger.mint(ALICE, vec![], 80).unwrap();
    assert_eq!(ledger.transfer(ALICE, id, 30, BOB), Ok(30));
    let alice: u128 = ledger.account(id, ALICE);
    let bob: u128 = ledger.account(id, BOB);
    assert_eq!((alice, bob), (50, 30));
    assert_eq!(ledger.transfer(ALICE, id, 50, BOB), Ok(50));
    assert_eq!(ledger.transfer(BOB, id, 50, ALICE), Ok(50));
    assert_eq!(ledger.account(id, ALICE), alice);
    assert_eq!(ledger.account(id, BOB), bob);
}

#[test]
fn sequential_mints_give_increasing_ids() {
    let mut ledger = Pallet::new(20);
    let mut ids: Vec<UniqueAssetId> = Vec::new();
    for round in 0u64..10 {
        ids.push(ledger.mint(round, vec![round as u8], 1 + round as u128).unwrap());
    }
    assert_eq!(ids, vec![0, 1, 2, 3, 4, 5, 6, 7, 8, 9]);
    assert_eq!(ledger.nonce(), 10);
    for pair in ids.windows(2) {
        assert!(pair[0] < pair[1]);
    }
}

#[test]
fn failed_mint_uses_no_identifier() {
    let mut ledger = Pallet::new(20);
    assert_eq!(ledger.mint(ALICE, vec![], 5), Ok(0));
    assert_eq!(ledger.mint(ALICE, vec![], 0), Err(Error::NoSupply));
    assert_eq!(ledger.mint(BOB, vec![], 5), Ok(1));
}

#[test]
fn assets_are_kept_apart() {
    let mut ledger = Pallet::new(20);
    let first: UniqueAssetId = ledger.mint(ALICE, vec![1], 10).unwrap();
    let second: UniqueAssetId = ledger.mint(ALICE, vec![2], 20).unwrap();
    assert_eq!(ledger.transfer(ALICE, first, 4, BOB), Ok(4));
    assert_eq!(ledger.burn(ALICE, second, 5), Ok(15));
    assert_eq!(ledger.account(first, ALICE), 6);
    assert_eq!(ledger.account(first, BOB), 4);
    assert_eq!(ledger.account(second, ALICE), 15);
    assert_eq!(ledger.account(second, BOB), 0);
    assert_eq!(supply_of(&ledger, first), 10);
    assert_eq!(supply_of(&ledger, second), 15);
}

#[test]
fn balances_add_up_to_the_supply_after_every_step() {
    let accounts: [u64; 3] = [ALICE, BOB, CAROL];
    let mut ledger = Pallet::new(20);
    let id: UniqueAssetId = ledger.mint(ALICE, vec![], 1000).unwrap();
    let check = |ledger: &Pallet| {
        let sum: u128 = accounts.iter().map(|who| ledger.account(id, *who)).sum();
        assert_eq!(sum, supply_of(ledger, id));
    };
    check(&ledger);
    ledger.transfer(ALICE, id, 300, BOB).unwrap();
    check(&ledger);
    ledger.transfer(BOB, id, 5000, CAROL).unwrap();
    check(&ledger);
    ledger.burn(CAROL, id, 120).unwrap();
    check(&ledger);
    ledger.burn(ALICE, id, 10_000).unwrap();
    check(&ledger);
    assert_eq!(ledger.burn(BOB, id, 1), Err(Error::NotOwned));
    check(&ledger);
    assert_eq!(supply_of(&ledger, id), 180);
}

#[test]
fn ensure_own_some_tells_holders_from_others() {
    let mut ledger = Pallet::new(20);
    let id: UniqueAssetId = ledger.mint(ALICE, vec![], 1).unwrap();
    assert_eq!(ledger.ensure_own_some(id, ALICE), Ok(()));
    assert_eq!(ledger.ensure_own_some(id, BOB), Err(Error::NotOwned));
    assert_eq!(ledger.ensure_own_some(77, ALICE), Err(Error::NotOwned));
}

#[test]
fn events_come_in_the_order_of_the_calls() {
    let mut ledger = Pallet::new(20);
    let id: UniqueAssetId = ledger.mint(ALICE, vec![], 9).unwrap();
    ledger.transfer(ALICE, id, 4, BOB).unwrap();
    ledger.burn(BOB, id, 10).unwrap();
    assert_eq!(
        ledger.events(),
        &vec![
            Event::Created { creator: ALICE, asset_id: 0 },
            Event::Transferred { asset_id: 0, from: ALICE, to: BOB, amount: 4 },
            Event::Burned { asset_id: 0, owner: BOB, total_supply: 5 },
        ]
    );
}

#[test]
fn allocator_at_its_end_hands_out_the_last_id_again() {
    let mut ledger = Pallet::starting_at(20, UniqueAssetId::MAX - 1);
    assert_eq!(ledger.mint(ALICE, vec![1], 10), Ok(UniqueAssetId::MAX - 1));
    assert_eq!(ledger.nonce(), UniqueAssetId::MAX);
    assert_eq!(ledger.mint(BOB, vec![2], 20), Ok(UniqueAssetId::MAX));
    assert_eq!(ledger.nonce(), UniqueAssetId::MAX);
    assert_eq!(ledger.mint(CAROL, vec![3], 30), Ok(UniqueAssetId::MAX));
    assert_eq!(ledger.nonce(), UniqueAssetId::MAX);
    let details = ledger.unique_asset(UniqueAssetId::MAX).expect("the asset exists");
    assert_eq!(details.creator(), CAROL);
    assert_eq!(details.supply(), 30);
    assert_eq!(ledger.account(UniqueAssetId::MAX, BOB), 20);
    assert_eq!(ledger.account(UniqueAssetId::MAX, CAROL), 30);
}
