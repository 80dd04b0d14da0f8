use rust_state_machine::system::{Config, Pallet};

#[derive(Debug)]
struct Wide;

impl Config for Wide {
    type AccountId = String;
    type BlockNumber = u32;
    type Nonce = u32;
}

#[derive(Debug)]
struct Narrow;

impl Config for Narrow {
    type AccountId = &'static str;
    type BlockNumber = u8;
    type Nonce = u8;
}

#[test]
fn fresh_system_is_at_zero() {
    let system = Pallet::<Wide>::new();
    assert_eq!(system.block_number(), 0);
    assert_eq!(system.nonce(&"alice".to_string()), 0);
    assert_eq!(system.nonce(&"bob".to_string()), 0);
}

#[test]
fn block_number_goes_up_by_one() {
    let mut system = Pallet::<Wide>::new();
    system.inc_block_number();
    assert_eq!(system.block_number(), 1);
    system.inc_block_number();
    system.inc_block_number();
    assert_eq!(system.block_number(), 3);
    assert_eq!(system.nonce(&"alice".to_string()), 0);
}

#[test]
fn nonce_counts_the_calls() {
    let mut system = Pallet::<Wide>::new();
    let alice = "alice".to_string();
    let bob = "bob".to_string();
    let mut last = 0;
    for k in 1..=50u32 {
        system.inc_nonce(&alice);
        let now = system.nonce(&alice);
        assert_eq!(now, k);
        assert!(now >= last);
        last = now;
        assert_eq!(system.nonce(&bob), 0);
    }
    system.inc_nonce(&bob);
    assert_eq!(system.nonce(&bob), 1);
    assert_eq!(system.nonce(&alice), 50);
    assert_eq!(system.block_number(), 0);
}

#[test]
fn block_number_stays_at_the_largest() {
    let mut system = Pallet::<Narrow>::new();
    for _ in 0..255 {
        system.inc_block_number();
    }
    assert_eq!(system.block_number(), 255);
    system.inc_block_number();
    assert_eq!(system.block_number(), 255);
}

#[test]
fn nonce_stays_at_the_largest() {
    let mut system = Pallet::<Narrow>::new();
    for k in 1..=255u8 {
        system.inc_nonce(&"alice");
        assert_eq!(system.nonce(&"alice"), k);
    }
    system.inc_nonce(&"alice");
    system.inc_nonce(&"alice");
    assert_eq!(system.nonce(&"alice"), 255);
    assert_eq!(system.nonce(&"bob"), 0);
}
