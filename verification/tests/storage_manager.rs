use near_fpo::errors::StorageError;
use near_fpo::oracle::FPOContract;
use near_fpo::storage_manager::{STORAGE_MINIMUM_BALANCE, STORAGE_PRICE_PER_BYTE};

fn alice() -> String {
    "alice.near".to_string()
}

#[test]
fn storage_manager_deposit() {
    let mut contract = FPOContract::new(alice());

    let account = contract.get_storage_account(&alice());
    assert_eq!(account.available, 0);

    let amount = 10u128.pow(24);

    // deposit
    contract.storage_deposit(&alice(), amount).unwrap();

    let account = contract.get_storage_account(&alice());
    assert_eq!(account.available, amount);

    // deposit again
    contract.storage_deposit(&alice(), amount).unwrap();

    let account = contract.get_storage_account(&alice());
    assert_eq!(account.available, amount * 2);
}

#[test]
fn storage_manager_withdraw() {
    let mut contract = FPOContract::new(alice());

    let account = contract.get_storage_account(&alice());
    assert_eq!(account.available, 0);

    let amount = 10u128.pow(24);

    // deposit
    contract.storage_deposit(&alice(), amount).unwrap();

    // withdraw, with exactly one attached unit as confirmation
    contract.storage_withdraw(&alice(), amount / 2, 1).unwrap();
    let account = contract.get_storage_account(&alice());
    assert_eq!(account.available, amount / 2);
}

#[test]
fn storage_manager_withdraw_too_much() {
    let mut contract = FPOContract::new(alice());

    let account = contract.get_storage_account(&alice());
    assert_eq!(account.available, 0);

    let amount = 10u128.pow(24);

    // deposit
    contract.storage_deposit(&alice(), amount).unwrap();

    // withdraw more than deposited
    let r = contract.storage_withdraw(&alice(), amount * 2, 1);
    assert_eq!(r, Err(StorageError::InsufficientBalance));
}

#[test]
fn storage_deposit_below_minimum() {
    let mut contract = FPOContract::new(alice());
    let r = contract.storage_deposit(&alice(), STORAGE_MINIMUM_BALANCE - 1);
    assert_eq!(r, Err(StorageError::DepositTooLow));
    assert_eq!(contract.get_storage_account(&alice()).total, 0);
}

#[test]
fn storage_withdraw_needs_one_yocto() {
    let mut contract = FPOContract::new(alice());
    contract.storage_deposit(&alice(), 10u128.pow(24)).unwrap();
    let r = contract.storage_withdraw(&alice(), 1, 0);
    assert_eq!(r, Err(StorageError::OneYoctoRequired));
}

#[test]
fn storage_balance_reports() {
    let mut contract = FPOContract::new(alice());
    assert!(contract.storage_balance_of(&alice()).is_none());
    contract.storage_deposit(&alice(), 10u128.pow(24)).unwrap();
    let balance = contract.storage_balance_of(&alice()).unwrap();
    assert_eq!(balance.total, 10u128.pow(24));
    assert_eq!(balance.available, 10u128.pow(24));
    let bounds = contract.storage_balance_bounds();
    assert_eq!(bounds.min, STORAGE_MINIMUM_BALANCE);
    assert_eq!(bounds.max, None);
}

#[test]
fn use_storage_charges_growth() {
    let mut contract = FPOContract::new(alice());
    let initial_available = 10u128.pow(24);
    // The call grew storage by 100 bytes.
    contract
        .use_storage(&alice(), 1000, initial_available, 1100)
        .unwrap();
    let account = contract.get_storage_account(&alice());
    assert_eq!(account.available, initial_available - 100 * STORAGE_PRICE_PER_BYTE);
}

#[test]
fn use_storage_credits_freed_bytes() {
    let mut contract = FPOContract::new(alice());
    let initial_available = 10u128.pow(24);
    // The call freed 50 bytes.
    contract
        .use_storage(&alice(), 1100, initial_available, 1050)
        .unwrap();
    let account = contract.get_storage_account(&alice());
    assert_eq!(account.available, initial_available + 50 * STORAGE_PRICE_PER_BYTE);
}

#[test]
fn use_storage_rejects_uncovered_growth() {
    let mut contract = FPOContract::new(alice());
    let r = contract.use_storage(&alice(), 0, 5, 1000);
    assert_eq!(r, Err(StorageError::InsufficientBalance));
}

#[test]
fn refund_storage_growth_and_release() {
    // Growth of 10 bytes against an ample deposit refunds the rest.
    let attached = 100 * STORAGE_PRICE_PER_BYTE;
    assert_eq!(
        Ok(attached - 10 * STORAGE_PRICE_PER_BYTE),
        near_fpo::storage_manager::refund_storage(1000, 1010, attached)
    );
    // Freed bytes are refunded on top of the attached deposit.
    assert_eq!(
        Ok(attached + 10 * STORAGE_PRICE_PER_BYTE),
        near_fpo::storage_manager::refund_storage(1010, 1000, attached)
    );
    // Growth beyond the attached deposit is rejected.
    assert_eq!(
        Err(StorageError::InsufficientBalance),
        near_fpo::storage_manager::refund_storage(1000, 2000, 1)
    );
}
