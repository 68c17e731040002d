use state_machine::system::{Config, Pallet, SystemError};

struct TestConfig;

impl Config for TestConfig {
    type AccountId = String;
    type BlockNumber = u32;
    type Nonce = u32;
}

#[test]
fn new_pallet_starts_at_block_zero() {
    let pallet = Pallet::<TestConfig>::new();
    assert_eq!(pallet.block_number(), 0);
}

#[test]
fn inc_block_number_increments_by_one() {
    let mut pallet = Pallet::<TestConfig>::new();
    pallet.inc_block_number().unwrap();
    assert_eq!(pallet.block_number(), 1);
    pallet.inc_block_number().unwrap();
    assert_eq!(pallet.block_number(), 2);
}

#[test]
fn inc_nonce_initializes_missing_account_to_one() {
    let mut pallet = Pallet::<TestConfig>::new();
    let alice = "alice".to_string();
    pallet.inc_nonce(&alice).unwrap();
    assert_eq!(pallet.nonce(&alice), 1);
}

#[test]
fn inc_nonce_increments_existing_account() {
    let mut pallet = Pallet::<TestConfig>::new();
    let alice = "alice".to_string();
    pallet.inc_nonce(&alice).unwrap();
    pallet.inc_nonce(&alice).unwrap();
    pallet.inc_nonce(&alice).unwrap();
    assert_eq!(pallet.nonce(&alice), 3);
}

#[test]
fn inc_nonce_does_not_change_block_number() {
    let mut pallet = Pallet::<TestConfig>::new();
    let alice = "alice".to_string();
    let block_number = pallet.block_number();
    pallet.inc_nonce(&alice).unwrap();
    pallet.inc_nonce(&alice).unwrap();
    assert_eq!(pallet.block_number(), block_number);
}

#[test]
fn inc_block_number_does_not_change_nonce() {
    let mut pallet = Pallet::<TestConfig>::new();
    let alice = "alice".to_string();
    let nonce = pallet.nonce(&alice);

    pallet.inc_block_number().unwrap();
    pallet.inc_block_number().unwrap();

    assert_eq!(pallet.nonce(&alice), nonce);
}

#[test]
fn inc_nonce_returns_error_on_overflow() {
    let mut pallet = Pallet::<TestConfig>::new();
    let alice = "alice".to_string();
    pallet.set_nonce(&alice, u32::MAX);

    let err = pallet.inc_nonce(&alice).unwrap_err();
    assert_eq!(err, SystemError::NonceOverflow);

    assert_eq!(pallet.nonce(&alice), u32::MAX);
}

#[test]
fn inc_block_number_returns_error_on_overflow() {
    let mut pallet = Pallet::<TestConfig>::new();
    pallet.set_block_number(u32::MAX);

    let err = pallet.inc_block_number().unwrap_err();
    assert_eq!(err, SystemError::BlockNumberOverflow);

    assert_eq!(pallet.block_number(), u32::MAX);
}

#[test]
fn nonce_of_unseen_account_is_zero() {
    let mut pallet = Pallet::<TestConfig>::new();
    pallet.inc_nonce(&"alice".to_string()).unwrap();
    assert_eq!(pallet.nonce(&"bob".to_string()), 0);
}

#[test]
fn block_number_counts_the_calls() {
    let mut pallet = Pallet::<TestConfig>::new();
    for k in 1..=1000u32 {
        assert_eq!(pallet.inc_block_number(), Ok(()));
        assert_eq!(pallet.block_number(), k);
    }
}

#[test]
fn block_number_reaches_the_maximum_and_stops() {
    let mut pallet = Pallet::<TestConfig>::new();
    pallet.set_block_number(u32::MAX - 1);
    assert_eq!(pallet.inc_block_number(), Ok(()));
    assert_eq!(pallet.block_number(), u32::MAX);
    assert_eq!(
        pallet.inc_block_number(),
        Err(SystemError::BlockNumberOverflow)
    );
    assert_eq!(
        pallet.inc_block_number(),
        Err(SystemError::BlockNumberOverflow)
    );
    assert_eq!(pallet.block_number(), u32::MAX);
}

#[test]
fn nonce_counts_the_calls_of_its_account_alone() {
    let mut pallet = Pallet::<TestConfig>::new();
    let alice = "alice".to_string();
    let bob = "bob".to_string();
    pallet.inc_nonce(&bob).unwrap();
    for k in 1..=500u32 {
        assert_eq!(pallet.inc_nonce(&alice), Ok(()));
        assert_eq!(pallet.nonce(&alice), k);
        assert_eq!(pallet.nonce(&bob), 1);
        assert_eq!(pallet.block_number(), 0);
    }
}

#[test]
fn nonce_overflow_leaves_other_accounts_alone() {
    let mut pallet = Pallet::<TestConfig>::new();
    let alice = "alice".to_string();
    let bob = "bob".to_string();
    pallet.set_nonce(&alice, u32::MAX);
    pallet.set_nonce(&bob, 4);
    assert_eq!(pallet.inc_nonce(&alice), Err(SystemError::NonceOverflow));
    assert_eq!(pallet.inc_nonce(&bob), Ok(()));
    assert_eq!(pallet.nonce(&alice), u32::MAX);
    assert_eq!(pallet.nonce(&bob), 5);
}

#[test]
fn set_nonce_overwrites() {
    let mut pallet = Pallet::<TestConfig>::new();
    let alice = "alice".to_string();
    pallet.set_nonce(&alice, 9);
    pallet.set_nonce(&alice, 3);
    assert_eq!(pallet.nonce(&alice), 3);
    assert_eq!(pallet.block_number(), 0);
}

#[test]
fn set_block_number_keeps_nonces() {
    let mut pallet = Pallet::<TestConfig>::new();
    let alice = "alice".to_string();
    pallet.inc_nonce(&alice).unwrap();
    pallet.set_block_number(17);
    assert_eq!(pallet.block_number(), 17);
    assert_eq!(pallet.nonce(&alice), 1);
}
