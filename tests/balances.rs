use ledger_runtime::balances::{Call, Pallet};
use ledger_runtime::support::DispatchError;

#[test]
fn init_balances() {
    let mut balances = Pallet::new();

    let alice = "alice".to_string();
    let bob = "bob".to_string();

    assert_eq!(balances.get_balance(&alice), 0);

    balances.set_balance(&alice, 100);

    assert_eq!(balances.get_balance(&alice), 100);
    assert_eq!(balances.get_balance(&bob), 0);
}

#[test]
fn transfer_balance() {
    let mut balances = Pallet::new();
    let alice = "alice".to_string();
    let bob = "bob".to_string();

    balances.set_balance(&alice, 100);
    balances.set_balance(&bob, 0);

    // Alice cannot transfer more funds than she has.
    assert!(balances.transfer(&alice, &bob, 150).is_err());
    assert_eq!(balances.get_balance(&alice), 100);
    assert_eq!(balances.get_balance(&bob), 0);

    // Alice can transfer funds to Bob.
    assert!(balances.transfer(&alice, &bob, 50).is_ok());
    assert_eq!(balances.get_balance(&alice), 50);
    assert_eq!(balances.get_balance(&bob), 50);

    // The balances keep being updated by further transfers.
    assert!(balances.transfer(&alice, &bob, 50).is_ok());
    assert_eq!(balances.get_balance(&alice), 0);
    assert_eq!(balances.get_balance(&bob), 100);
}

#[test]
fn transfer_more_than_held_is_insufficient_funds() {
    let mut balances = Pallet::new();
    let alice = "alice".to_string();
    let bob = "bob".to_string();
    balances.set_balance(&alice, 30);
    balances.set_balance(&bob, 7);
    assert_eq!(balances.transfer(&alice, &bob, 31), Err(DispatchError::InsufficientFunds));
    assert_eq!(balances.get_balance(&alice), 30);
    assert_eq!(balances.get_balance(&bob), 7);
}

#[test]
fn transfer_from_unknown_account_is_insufficient_funds() {
    let mut balances = Pallet::new();
    let alice = "alice".to_string();
    let bob = "bob".to_string();
    assert_eq!(balances.transfer(&alice, &bob, 1), Err(DispatchError::InsufficientFunds));
    assert_eq!(balances.get_balance(&bob), 0);
}

#[test]
fn transfer_overflowing_receiver_is_arithmetic_overflow() {
    let mut balances = Pallet::new();
    let alice = "alice".to_string();
    let bob = "bob".to_string();
    balances.set_balance(&alice, 10);
    balances.set_balance(&bob, u128::MAX);
    assert_eq!(balances.transfer(&alice, &bob, 1), Err(DispatchError::ArithmeticOverflow));
    assert_eq!(balances.get_balance(&alice), 10);
    assert_eq!(balances.get_balance(&bob), u128::MAX);
}

#[test]
fn transfer_up_to_the_largest_balance() {
    let mut balances = Pallet::new();
    let alice = "alice".to_string();
    let bob = "bob".to_string();
    balances.set_balance(&alice, 10);
    balances.set_balance(&bob, u128::MAX - 10);
    assert_eq!(balances.transfer(&alice, &bob, 10), Ok(()));
    assert_eq!(balances.get_balance(&alice), 0);
    assert_eq!(balances.get_balance(&bob), u128::MAX);
}

#[test]
fn self_transfer_keeps_balance() {
    let mut balances = Pallet::new();
    let alice = "alice".to_string();
    balances.set_balance(&alice, 100);
    assert_eq!(balances.transfer(&alice, &alice, 60), Ok(()));
    assert_eq!(balances.get_balance(&alice), 100);
    assert_eq!(balances.transfer(&alice, &alice, 100), Ok(()));
    assert_eq!(balances.get_balance(&alice), 100);
    assert_eq!(balances.transfer(&alice, &alice, 101), Err(DispatchError::InsufficientFunds));
    assert_eq!(balances.get_balance(&alice), 100);
}

#[test]
fn self_transfer_at_the_largest_balance() {
    let mut balances = Pallet::new();
    let alice = "alice".to_string();
    balances.set_balance(&alice, u128::MAX);
    assert_eq!(balances.transfer(&alice, &alice, 5), Ok(()));
    assert_eq!(balances.get_balance(&alice), u128::MAX);
}

#[test]
fn zero_transfer_always_succeeds() {
    let mut balances = Pallet::new();
    let alice = "alice".to_string();
    let bob = "bob".to_string();
    assert_eq!(balances.transfer(&alice, &bob, 0), Ok(()));
    assert_eq!(balances.get_balance(&alice), 0);
    assert_eq!(balances.get_balance(&bob), 0);
}

#[test]
fn transfers_keep_the_total() {
    let mut balances = Pallet::new();
    let names = ["alice".to_string(), "bob".to_string(), "charlie".to_string()];
    balances.set_balance(&names[0], 100);
    balances.set_balance(&names[1], 40);
    let moves: [(usize, usize, u128); 5] = [(0, 1, 30), (1, 2, 60), (2, 0, 5), (0, 2, 1000), (1, 1, 10)];
    for (from, to, amount) in moves {
        let _ = balances.transfer(&names[from], &names[to], amount);
        let sum: u128 = names.iter().map(|n| balances.get_balance(n)).sum();
        assert_eq!(sum, 140);
    }
    assert_eq!(balances.get_balance(&names[0]), 75);
    assert_eq!(balances.get_balance(&names[1]), 10);
    assert_eq!(balances.get_balance(&names[2]), 55);
}

#[test]
fn set_balance_changes_the_total() {
    let mut balances = Pallet::new();
    let alice = "alice".to_string();
    let bob = "bob".to_string();
    balances.set_balance(&alice, 100);
    balances.set_balance(&bob, 20);
    balances.set_balance(&alice, 70);
    assert_eq!(balances.get_balance(&alice) + balances.get_balance(&bob), 90);
}

#[test]
fn ledger_dispatch_transfers() {
    let mut balances = Pallet::new();
    let alice = "alice".to_string();
    let bob = "bob".to_string();
    balances.set_balance(&alice, 20);
    assert_eq!(balances.dispatch(alice.clone(), Call::Transfer { to: bob.clone(), amount: 15 }), Ok(()));
    assert_eq!(balances.get_balance(&alice), 5);
    assert_eq!(balances.get_balance(&bob), 15);
    assert_eq!(
        balances.dispatch(alice.clone(), Call::Transfer { to: bob.clone(), amount: 6 }),
        Err(DispatchError::InsufficientFunds)
    );
}
