use std::collections::HashMap;
use sub_tracker::balances::Pallet;
use sub_tracker::sudo;
use sub_tracker::Origin;

#[test]
fn balance_pallet_new_works() {
    let balance = Pallet::new();
    assert_eq!(balance.balance, HashMap::new());
}

#[test]
fn set_balance_should_work() {
    let mut pallet_balance = Pallet::new();
    let user1 = 1;
    let user2 = 2;
    assert_eq!(pallet_balance.balance, HashMap::new());
    pallet_balance.set_balances(user1, 100);
    assert_eq!(pallet_balance.get_balances(user1), 100);
    assert_eq!(pallet_balance.get_balances(user2), 0);
}

#[test]
fn a_balance_set_again_replaces_the_one_before() {
    let mut ledger = Pallet::new();
    ledger.set_balances(7, 100);
    ledger.set_balances(8, 5);
    ledger.set_balances(7, 30);
    assert_eq!(ledger.get_balances(7), 30);
    assert_eq!(ledger.get_balances(8), 5);
    assert_eq!(ledger.balance.len(), 2);
    ledger.set_balances(7, 0);
    assert_eq!(ledger.get_balances(7), 0);
    assert_eq!(ledger.balance.len(), 2);
}

#[test]
fn nobody_holds_the_sudo_key_by_default() {
    let genesis = sudo::GenesisConfig::default();
    assert_eq!(genesis.key, None);
    let pallet = genesis.build();
    assert_eq!(pallet.sudo_key(), None);
    assert_eq!(pallet.sudo(Origin::Signed(1)), Err(sudo::Error::RequireSudo));
    assert_eq!(pallet.ensure_sudo(Origin::Signed(1)), Err(sudo::Error::RequireSudo));
    assert_eq!(pallet.sudo(Origin::Root), Err(sudo::Error::Unauthorized));
}

#[test]
fn the_holder_of_the_key_dispatches_as_root() {
    let pallet = sudo::GenesisConfig { key: Some(5) }.build();
    assert_eq!(pallet.sudo_key(), Some(5));
    assert_eq!(pallet.ensure_sudo(Origin::Signed(5)), Ok(5));
    assert_eq!(pallet.sudo(Origin::Signed(5)), Ok(Origin::Root));
    assert_eq!(pallet.sudo_unchecked_weight(Origin::Signed(5), 1_000), Ok(Origin::Root));
    assert_eq!(pallet.sudo(Origin::Signed(6)), Err(sudo::Error::RequireSudo));
    assert_eq!(pallet.sudo_unchecked_weight(Origin::Signed(6), 0), Err(sudo::Error::RequireSudo));
    assert_eq!(pallet.sudo(Origin::Unsigned), Err(sudo::Error::Unauthorized));
    assert_eq!(pallet.sudo(Origin::Root), Err(sudo::Error::Unauthorized));
}

#[test]
fn the_holder_of_the_key_dispatches_in_the_name_of_another() {
    let pallet = sudo::GenesisConfig { key: Some(5) }.build();
    assert_eq!(pallet.sudo_as(Origin::Signed(5), 9), Ok(Origin::Signed(9)));
    assert_eq!(pallet.sudo_as(Origin::Signed(9), 5), Err(sudo::Error::RequireSudo));
    assert_eq!(pallet.sudo_as(Origin::Unsigned, 5), Err(sudo::Error::Unauthorized));
}

#[test]
fn the_key_changes_hands_on_request_of_its_holder() {
    let mut pallet = sudo::GenesisConfig { key: Some(5) }.build();
    assert!(matches!(pallet.set_key(Origin::Signed(6), 6), Err(sudo::Error::RequireSudo)));
    assert!(matches!(pallet.set_key(Origin::Root, 6), Err(sudo::Error::Unauthorized)));
    assert_eq!(pallet.sudo_key(), Some(5));
    match pallet.set_key(Origin::Signed(5), 6) {
        Ok(sudo::Event::KeyChanged { old_sudoer }) => assert_eq!(old_sudoer, Some(5)),
        other => panic!("{:?}", other),
    }
    assert_eq!(pallet.sudo_key(), Some(6));
    assert_eq!(pallet.sudo(Origin::Signed(5)), Err(sudo::Error::RequireSudo));
    assert_eq!(pallet.sudo(Origin::Signed(6)), Ok(Origin::Root));
}
