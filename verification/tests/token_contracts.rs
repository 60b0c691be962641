use sanctifier::token::{burn_pure, initialize_pure, mint_pure, transfer_pure, InstanceStorage, TokenContract};
use sanctifier::token_with_bugs::{PersistentStorage, TokenWithBugs};

#[test]
fn transfer_pure_moves_amount() {
    assert_eq!(transfer_pure(100, 5, 30), Ok((70, 35)));
    assert_eq!(transfer_pure(100, 5, 0), Err("Amount must be positive"));
    assert_eq!(transfer_pure(100, 5, -3), Err("Amount must be positive"));
    assert_eq!(transfer_pure(i128::MIN, 0, 1), Err("Insufficient balance"));
    assert_eq!(transfer_pure(50, 0, 100), Err("Insufficient balance"));
    assert_eq!(transfer_pure(10, i128::MAX, 1), Err("Receiver balance overflow"));
}

#[test]
fn mint_and_burn_pure() {
    assert_eq!(mint_pure(10, 5), Ok(15));
    assert_eq!(mint_pure(10, 0), Err("Mint amount must be positive"));
    assert_eq!(mint_pure(i128::MAX, 1), Err("Mint overflow"));
    assert_eq!(burn_pure(10, 4), Ok(6));
    assert_eq!(burn_pure(10, -1), Err("Burn amount must be positive"));
    assert_eq!(burn_pure(i128::MIN, 1), Err("Insufficient balance to burn"));
    assert_eq!(burn_pure(mint_pure(7, 3).unwrap(), 3), Ok(7));
}

#[test]
fn initialize_succeeds_once() {
    assert_eq!(initialize_pure(false), Ok(()));
    assert_eq!(initialize_pure(true), Err("already initialized"));
    let mut storage = InstanceStorage { init: None, admin: None };
    TokenContract::initialize(&mut storage, "Token".to_string());
    assert_eq!(storage.init, Some(true));
    assert_eq!(initialize_pure(storage.init == Some(true)), Err("already initialized"));
    TokenContract::set_admin(&mut storage, "ADMIN".to_string());
    assert_eq!(storage.admin.as_deref(), Some("ADMIN"));
    assert_eq!(storage.init, Some(true));
}

#[test]
fn token_contract_transfer() {
    assert_eq!(TokenContract::transfer(50, 50, 25), (25, 75));
}

#[test]
fn buggy_token_balances() {
    let mut e = PersistentStorage::new();
    assert_eq!(TokenWithBugs::balance(&e, 1), 0);
    TokenWithBugs::mint(&mut e, 1, 100);
    assert_eq!(TokenWithBugs::balance(&e, 1), 100);
    TokenWithBugs::transfer(&mut e, 1, 2, 30);
    assert_eq!(TokenWithBugs::balance(&e, 1), 70);
    assert_eq!(TokenWithBugs::balance(&e, 2), 30);
    TokenWithBugs::transfer(&mut e, 2, 2, 10);
    assert_eq!(TokenWithBugs::balance(&e, 2), 30);
    TokenWithBugs::transfer(&mut e, 3, 1, 5);
    assert_eq!(TokenWithBugs::balance(&e, 3), -5);
    assert_eq!(TokenWithBugs::balance(&e, 1), 75);
    TokenWithBugs::initialize(&e, 9, "Token".to_string(), "TKN".to_string());
    assert_eq!(TokenWithBugs::symbol(&e), "TKN");
}
