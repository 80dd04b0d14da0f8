use rust_state_machine::balances::{Call, Config, Pallet};
use rust_state_machine::support::{Dispatch, DispatchError};
use rust_state_machine::system;

#[derive(Debug)]
struct Ledger;

impl system::Config for Ledger {
    type AccountId = String;
    type BlockNumber = u32;
    type Nonce = u32;
}

impl Config for Ledger {
    type Balance = u128;
}

#[derive(Debug)]
struct SmallLedger;

impl system::Config for SmallLedger {
    type AccountId = u64;
    type BlockNumber = u32;
    type Nonce = u32;
}

impl Config for SmallLedger {
    type Balance = u8;
}

fn alice() -> String {
    "alice".to_string()
}

fn bob() -> String {
    "bob".to_string()
}

#[test]
fn untouched_accounts_hold_nothing() {
    let balances = Pallet::<Ledger>::new();
    assert_eq!(balances.balance(&alice()), 0);
    assert_eq!(balances.balance(&bob()), 0);
    assert_eq!(balances.balance(&String::new()), 0);
}

#[test]
fn set_balance_overwrites() {
    let mut balances = Pallet::<Ledger>::new();
    balances.set_balance(&alice(), 100);
    assert_eq!(balances.balance(&alice()), 100);
    assert_eq!(balances.balance(&bob()), 0);
    balances.set_balance(&alice(), 7);
    assert_eq!(balances.balance(&alice()), 7);
    balances.set_balance(&alice(), 0);
    assert_eq!(balances.balance(&alice()), 0);
}

#[test]
fn transfer_moves_the_amount() {
    let mut balances = Pallet::<Ledger>::new();
    balances.set_balance(&alice(), 100);
    balances.set_balance(&bob(), 5);
    assert_eq!(balances.transfer(alice(), bob(), 30), Ok(()));
    assert_eq!(balances.balance(&alice()), 70);
    assert_eq!(balances.balance(&bob()), 35);
    assert_eq!(balances.balance(&alice()) + balances.balance(&bob()), 105);
}

#[test]
fn transfer_of_everything_and_of_nothing() {
    let mut balances = Pallet::<Ledger>::new();
    balances.set_balance(&alice(), 100);
    assert_eq!(balances.transfer(alice(), bob(), 0), Ok(()));
    assert_eq!(balances.balance(&alice()), 100);
    assert_eq!(balances.balance(&bob()), 0);
    assert_eq!(balances.transfer(alice(), bob(), 100), Ok(()));
    assert_eq!(balances.balance(&alice()), 0);
    assert_eq!(balances.balance(&bob()), 100);
    assert_eq!(balances.transfer(bob(), alice(), 0), Ok(()));
}

#[test]
fn transfer_without_funds_is_refused() {
    let mut balances = Pallet::<Ledger>::new();
    balances.set_balance(&alice(), 10);
    balances.set_balance(&bob(), 3);
    assert_eq!(
        balances.transfer(alice(), bob(), 11),
        Err(DispatchError::InsufficientBalance)
    );
    assert_eq!(balances.balance(&alice()), 10);
    assert_eq!(balances.balance(&bob()), 3);
    assert_eq!(
        balances.transfer("carol".to_string(), bob(), 1),
        Err(DispatchError::InsufficientBalance)
    );
    assert_eq!(balances.balance(&"carol".to_string()), 0);
    assert_eq!(balances.balance(&bob()), 3);
}

#[test]
fn transfer_beyond_the_largest_balance_is_refused() {
    let mut balances = Pallet::<Ledger>::new();
    balances.set_balance(&alice(), 10);
    balances.set_balance(&bob(), u128::MAX - 4);
    assert_eq!(balances.transfer(alice(), bob(), 5), Err(DispatchError::Overflow));
    assert_eq!(balances.balance(&alice()), 10);
    assert_eq!(balances.balance(&bob()), u128::MAX - 4);
    assert_eq!(balances.transfer(alice(), bob(), 4), Ok(()));
    assert_eq!(balances.balance(&alice()), 6);
    assert_eq!(balances.balance(&bob()), u128::MAX);
}

#[test]
fn want_of_funds_is_reported_before_overflow() {
    let mut balances = Pallet::<Ledger>::new();
    balances.set_balance(&alice(), 1);
    balances.set_balance(&bob(), u128::MAX);
    assert_eq!(
        balances.transfer(alice(), bob(), 2),
        Err(DispatchError::InsufficientBalance)
    );
}

#[test]
fn transfer_to_oneself_changes_nothing() {
    let mut balances = Pallet::<Ledger>::new();
    balances.set_balance(&alice(), 100);
    assert_eq!(balances.transfer(alice(), alice(), 40), Ok(()));
    assert_eq!(balances.balance(&alice()), 100);
    assert_eq!(balances.transfer(alice(), alice(), 100), Ok(()));
    assert_eq!(balances.balance(&alice()), 100);
    assert_eq!(
        balances.transfer(alice(), alice(), 101),
        Err(DispatchError::InsufficientBalance)
    );
    assert_eq!(balances.balance(&alice()), 100);
}

#[test]
fn transfer_to_oneself_at_the_largest_balance() {
    let mut balances = Pallet::<Ledger>::new();
    balances.set_balance(&alice(), u128::MAX);
    assert_eq!(balances.transfer(alice(), alice(), u128::MAX), Ok(()));
    assert_eq!(balances.balance(&alice()), u128::MAX);
    assert_eq!(balances.transfer(alice(), alice(), 1), Ok(()));
    assert_eq!(balances.balance(&alice()), u128::MAX);
}

#[test]
fn small_balances_overflow_at_their_own_limit() {
    let mut balances = Pallet::<SmallLedger>::new();
    balances.set_balance(&1, 200);
    balances.set_balance(&2, 100);
    assert_eq!(balances.transfer(1, 2, 156), Err(DispatchError::Overflow));
    assert_eq!(balances.transfer(1, 2, 155), Ok(()));
    assert_eq!(balances.balance(&1), 45);
    assert_eq!(balances.balance(&2), 255);
}

#[test]
fn balances_dispatch_is_a_transfer_from_the_caller() {
    let mut balances = Pallet::<Ledger>::new();
    balances.set_balance(&alice(), 100);
    assert_eq!(
        balances.dispatch(alice(), Call::Transfer { to: bob(), amount: 30 }),
        Ok(())
    );
    assert_eq!(balances.balance(&alice()), 70);
    assert_eq!(balances.balance(&bob()), 30);
    assert_eq!(
        balances.dispatch(bob(), Call::Transfer { to: alice(), amount: 31 }),
        Err(DispatchError::InsufficientBalance)
    );
    assert_eq!(balances.balance(&alice()), 70);
    assert_eq!(balances.balance(&bob()), 30);
}
