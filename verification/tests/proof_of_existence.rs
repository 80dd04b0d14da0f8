use rust_state_machine::proof_of_existence::{Call, Config, Pallet};
use rust_state_machine::support::{Dispatch, DispatchError};
use rust_state_machine::system;

#[derive(Debug)]
struct TestConfig;

impl Config for TestConfig {
    type Content = &'static str;
}

impl system::Config for TestConfig {
    type AccountId = String;
    type BlockNumber = u32;
    type Nonce = u32;
}

#[test]
fn basic_proof_of_existence() {
    let mut poe = Pallet::<TestConfig>::new();
    let alice = &"alice";
    let bob = &"bob";
    let first_claim = &"Hello, world!";

    assert_eq!(poe.get_claim(&"Hello, world!"), None);
    assert_eq!(poe.create_claim(alice.to_string(), first_claim), Ok(()));
    assert_eq!(poe.get_claim(first_claim), Some(alice.to_string()).as_ref());
    assert_eq!(
        poe.create_claim(bob.to_string(), first_claim).map_err(|e| e.message()),
        Err("This content is already claimed.")
    );
    assert_eq!(poe.revoke_claim(alice.to_string(), first_claim), Ok(()));
    assert_eq!(poe.create_claim(bob.to_string(), first_claim), Ok(()));
}

#[test]
fn claim_lifecycle() {
    let mut poe = Pallet::<TestConfig>::new();
    let key = "a document";

    assert_eq!(poe.create_claim("alice".to_string(), key), Ok(()));
    assert_eq!(poe.get_claim(&key), Some(&"alice".to_string()));
    assert_eq!(
        poe.create_claim("bob".to_string(), key),
        Err(DispatchError::AlreadyClaimed)
    );
    assert_eq!(poe.get_claim(&key), Some(&"alice".to_string()));
    assert_eq!(poe.revoke_claim("alice".to_string(), key), Ok(()));
    assert_eq!(poe.get_claim(&key), None);
    assert_eq!(poe.create_claim("bob".to_string(), key), Ok(()));
    assert_eq!(poe.get_claim(&key), Some(&"bob".to_string()));
}

#[test]
fn owner_cannot_claim_twice() {
    let mut poe = Pallet::<TestConfig>::new();
    assert_eq!(poe.create_claim("alice".to_string(), "k"), Ok(()));
    assert_eq!(
        poe.create_claim("alice".to_string(), "k"),
        Err(DispatchError::AlreadyClaimed)
    );
    assert_eq!(poe.get_claim(&"k"), Some(&"alice".to_string()));
}

#[test]
fn revoke_by_non_owner_is_refused() {
    let mut poe = Pallet::<TestConfig>::new();
    assert_eq!(poe.create_claim("alice".to_string(), "k"), Ok(()));
    assert_eq!(
        poe.revoke_claim("bob".to_string(), "k"),
        Err(DispatchError::NotClaimOwner)
    );
    assert_eq!(poe.get_claim(&"k"), Some(&"alice".to_string()));
}

#[test]
fn revoke_of_unclaimed_content_is_refused() {
    let mut poe = Pallet::<TestConfig>::new();
    assert_eq!(
        poe.revoke_claim("alice".to_string(), "nothing"),
        Err(DispatchError::ClaimNotFound)
    );
    assert_eq!(poe.create_claim("alice".to_string(), "k"), Ok(()));
    assert_eq!(
        poe.revoke_claim("alice".to_string(), "other"),
        Err(DispatchError::ClaimNotFound)
    );
    assert_eq!(poe.get_claim(&"k"), Some(&"alice".to_string()));
}

#[test]
fn claims_on_different_content_are_independent() {
    let mut poe = Pallet::<TestConfig>::new();
    assert_eq!(poe.create_claim("alice".to_string(), "one"), Ok(()));
    assert_eq!(poe.create_claim("bob".to_string(), "two"), Ok(()));
    assert_eq!(poe.create_claim("alice".to_string(), "three"), Ok(()));
    assert_eq!(poe.revoke_claim("alice".to_string(), "one"), Ok(()));
    assert_eq!(poe.get_claim(&"one"), None);
    assert_eq!(poe.get_claim(&"two"), Some(&"bob".to_string()));
    assert_eq!(poe.get_claim(&"three"), Some(&"alice".to_string()));
}

#[test]
fn content_is_compared_by_its_characters() {
    let mut poe = Pallet::<TestConfig>::new();
    let built: &'static str = Box::leak(format!("{}{}", "Hello, ", "world!").into_boxed_str());
    assert_eq!(poe.create_claim("alice".to_string(), built), Ok(()));
    assert_eq!(poe.get_claim(&"Hello, world!"), Some(&"alice".to_string()));
    assert_eq!(poe.get_claim(&"Hello, world"), None);
    assert_eq!(poe.get_claim(&"Hello, world?"), None);
}

#[test]
fn poe_dispatch_routes_each_call() {
    let mut poe = Pallet::<TestConfig>::new();
    assert_eq!(
        poe.dispatch("alice".to_string(), Call::CreateClaim { claim: "k" }),
        Ok(())
    );
    assert_eq!(poe.get_claim(&"k"), Some(&"alice".to_string()));
    assert_eq!(
        poe.dispatch("bob".to_string(), Call::RevokeClaim { claim: "k" }),
        Err(DispatchError::NotClaimOwner)
    );
    assert_eq!(
        poe.dispatch("alice".to_string(), Call::RevokeClaim { claim: "k" }),
        Ok(())
    );
    assert_eq!(poe.get_claim(&"k"), None);
}
