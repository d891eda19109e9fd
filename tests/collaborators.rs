use pallet_auctions::ledger::Ledger;
use pallet_auctions::registry::Registry;
use pallet_auctions::{LedgerError, RegistryError};

#[test]
fn registry_owner_operations() {
    let mut r = Registry::new();
    assert_eq!(r.owner(1, 2), None);
    assert!(!r.can_transfer(1, 2));
    assert_eq!(r.freeze(7, 1, 2), Err(RegistryError::UnknownItem));
    assert_eq!(r.mint(7, 1, 2), Ok(()));
    assert_eq!(r.mint(8, 1, 2), Err(RegistryError::AlreadyExists));
    assert_eq!(r.owner(1, 2), Some(7));
    assert_eq!(r.owner(2, 1), None);
    assert_eq!(r.freeze(8, 1, 2), Err(RegistryError::NoPermission));
    assert_eq!(r.freeze(7, 1, 2), Ok(()));
    assert!(!r.can_transfer(1, 2));
    assert_eq!(r.transfer(7, 1, 2, 8), Err(RegistryError::Frozen));
    assert_eq!(r.thaw(7, 1, 2), Ok(()));
    assert_eq!(r.transfer(8, 1, 2, 8), Err(RegistryError::NoPermission));
    assert_eq!(r.transfer(7, 1, 2, 8), Ok(()));
    assert_eq!(r.owner(1, 2), Some(8));
    assert_eq!(r.transfer(7, 9, 9, 8), Err(RegistryError::UnknownItem));
}

#[test]
fn registry_keys_do_not_collide() {
    let mut r = Registry::new();
    assert_eq!(r.mint(1, u64::MAX, 0), Ok(()));
    assert_eq!(r.mint(2, 0, u64::MAX), Ok(()));
    assert_eq!(r.mint(3, u64::MAX, u64::MAX), Ok(()));
    assert_eq!(r.owner(u64::MAX, 0), Some(1));
    assert_eq!(r.owner(0, u64::MAX), Some(2));
    assert_eq!(r.owner(u64::MAX, u64::MAX), Some(3));
}

#[test]
fn ledger_locks_overlap() {
    let mut l = Ledger::new(1);
    l.set_balance(5, 1_000);
    l.set_lock(0, 5, 300);
    l.set_lock(1, 5, 700);
    assert_eq!(l.frozen(5), 700);
    assert_eq!(l.lock(0, 5), Some(300));
    l.set_lock(1, 5, 200);
    assert_eq!(l.frozen(5), 300);
    l.remove_lock(0, 5);
    assert_eq!(l.lock(0, 5), None);
    assert_eq!(l.frozen(5), 200);
    assert_eq!(l.free_balance(5), 1_000);
}

#[test]
fn ledger_settlement_ignores_the_released_lock() {
    let mut l = Ledger::new(1);
    l.set_balance(5, 1_000);
    l.set_balance(6, 0);
    l.set_lock(0, 5, 900);
    l.set_lock(1, 5, 200);
    assert_eq!(l.settle_check(0, 5, 6, 900), Some(LedgerError::LiquidityRestrictions));
    assert_eq!(l.unlock_and_transfer(0, 5, 6, 900), Err(LedgerError::LiquidityRestrictions));
    assert_eq!(l.lock(0, 5), Some(900));
    assert_eq!(l.unlock_and_transfer(0, 5, 6, 800), Ok(()));
    assert_eq!(l.lock(0, 5), None);
    assert_eq!(l.lock(1, 5), Some(200));
    assert_eq!(l.free_balance(5), 200);
    assert_eq!(l.free_balance(6), 800);
    assert_eq!(l.unlock_and_transfer(1, 5, 6, 500), Err(LedgerError::InsufficientBalance));
    assert_eq!(l.unlock_and_transfer(1, 5, 6, 200), Err(LedgerError::KeepAlive));
    l.set_balance(6, u128::MAX);
    assert_eq!(l.unlock_and_transfer(1, 5, 6, 100), Err(LedgerError::Overflow));
}

#[test]
fn ledger_escrow_moves() {
    let mut l = Ledger::new(10);
    l.set_balance(5, 100);
    assert_eq!(l.deposit_escrow(5, 3, 95), Err(LedgerError::KeepAlive));
    assert_eq!(l.deposit_escrow(5, 3, 101), Err(LedgerError::InsufficientBalance));
    assert_eq!(l.deposit_escrow(5, 3, 90), Ok(()));
    assert_eq!(l.escrow_balance(3), 90);
    assert_eq!(l.escrow_balance(4), 0);
    assert_eq!(l.free_balance(5), 10);
    assert_eq!(l.release_escrow(3, 7, 91), Err(LedgerError::InsufficientBalance));
    assert_eq!(l.release_escrow(3, 7, 90), Ok(()));
    assert_eq!(l.free_balance(7), 90);
    assert_eq!(l.escrow_balance(3), 0);
    assert_eq!(l.existential_deposit(), 10);
}
