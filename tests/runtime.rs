use ledger_runtime::support::{DispatchError, ExecutionError, ExtrinsicError};
use ledger_runtime::types::{Block, Extrinsic, Header};
use ledger_runtime::{balances, proof_of_existence, Runtime, RuntimeCall};

fn transfer(caller: &str, to: &str, amount: u128) -> Extrinsic {
    Extrinsic {
        caller: caller.to_string(),
        call: RuntimeCall::Balances(balances::Call::Transfer { to: to.to_string(), amount }),
    }
}

fn claim(caller: &str, content: &str) -> Extrinsic {
    Extrinsic {
        caller: caller.to_string(),
        call: RuntimeCall::ProofOfExistence(proof_of_existence::Call::CreateClaim {
            content: content.to_string(),
        }),
    }
}

fn block(number: u32, extrinsics: Vec<Extrinsic>) -> Block {
    Block { header: Header { block_number: number }, extrinsics }
}

fn with_alice_100() -> Runtime {
    let mut runtime = Runtime::new();
    runtime.balances.set_balance(&"alice".to_string(), 100);
    runtime
}

#[test]
fn new_runtime_is_empty() {
    let runtime = Runtime::new();
    assert_eq!(runtime.system.block_number(), 0);
    assert_eq!(runtime.balances.get_balance(&"alice".to_string()), 0);
    assert_eq!(runtime.system.nonce(&"alice".to_string()), 0);
    assert_eq!(runtime.proof_of_existence.get_claim(&"doc".to_string()), None);
}

#[test]
fn block_with_transfer_and_claim() {
    let mut runtime = with_alice_100();
    let alice = "alice".to_string();
    let result = runtime.execute_block(block(1, vec![transfer("alice", "bob", 10), claim("alice", "doc")]));
    assert_eq!(result, Ok(vec![]));
    assert_eq!(runtime.system.block_number(), 1);
    assert_eq!(runtime.balances.get_balance(&alice), 90);
    assert_eq!(runtime.balances.get_balance(&"bob".to_string()), 10);
    assert_eq!(runtime.proof_of_existence.get_claim(&"doc".to_string()), Some(&alice));
    assert_eq!(runtime.system.nonce(&alice), 2);
}

#[test]
fn failed_extrinsic_does_not_stop_the_block() {
    let mut runtime = with_alice_100();
    let alice = "alice".to_string();
    let result = runtime.execute_block(block(1, vec![transfer("alice", "bob", 1000), transfer("alice", "charlie", 10)]));
    assert_eq!(result, Ok(vec![ExtrinsicError { index: 0, error: DispatchError::InsufficientFunds }]));
    assert_eq!(runtime.balances.get_balance(&alice), 90);
    assert_eq!(runtime.balances.get_balance(&"charlie".to_string()), 10);
    assert_eq!(runtime.balances.get_balance(&"bob".to_string()), 0);
    assert_eq!(runtime.system.nonce(&alice), 2);
}

#[test]
fn wrong_block_number_is_refused() {
    let mut runtime = with_alice_100();
    let alice = "alice".to_string();
    let result = runtime.execute_block(block(2, vec![transfer("alice", "bob", 10), claim("alice", "doc")]));
    assert_eq!(result, Err(ExecutionError::BlockNumberMismatch));
    assert_eq!(runtime.balances.get_balance(&alice), 100);
    assert_eq!(runtime.balances.get_balance(&"bob".to_string()), 0);
    assert_eq!(runtime.proof_of_existence.get_claim(&"doc".to_string()), None);
    assert_eq!(runtime.system.nonce(&alice), 0);
    // The height still advanced, so the next block must carry 2.
    assert_eq!(runtime.system.block_number(), 1);
    assert_eq!(runtime.execute_block(block(1, vec![])), Err(ExecutionError::BlockNumberMismatch));
    assert_eq!(runtime.system.block_number(), 2);
    assert_eq!(runtime.execute_block(block(3, vec![transfer("alice", "bob", 10)])), Ok(vec![]));
    assert_eq!(runtime.balances.get_balance(&alice), 90);
    assert_eq!(runtime.system.nonce(&alice), 1);
}

#[test]
fn blocks_follow_each_other() {
    let mut runtime = with_alice_100();
    let alice = "alice".to_string();
    assert_eq!(runtime.execute_block(block(1, vec![transfer("alice", "bob", 10)])), Ok(vec![]));
    assert_eq!(runtime.execute_block(block(2, vec![transfer("bob", "alice", 5), transfer("alice", "bob", 1)])), Ok(vec![]));
    assert_eq!(runtime.execute_block(block(3, vec![])), Ok(vec![]));
    assert_eq!(runtime.system.block_number(), 3);
    assert_eq!(runtime.balances.get_balance(&alice), 94);
    assert_eq!(runtime.balances.get_balance(&"bob".to_string()), 6);
    assert_eq!(runtime.system.nonce(&alice), 2);
    assert_eq!(runtime.system.nonce(&"bob".to_string()), 1);
}

#[test]
fn nonce_counts_failed_and_successful_extrinsics() {
    let mut runtime = with_alice_100();
    let bob = "bob".to_string();
    let result = runtime.execute_block(block(
        1,
        vec![claim("bob", "x"), claim("alice", "x"), transfer("bob", "alice", 1), claim("bob", "x"), transfer("alice", "bob", 3)],
    ));
    assert_eq!(
        result,
        Ok(vec![
            ExtrinsicError { index: 1, error: DispatchError::AlreadyClaimed },
            ExtrinsicError { index: 2, error: DispatchError::InsufficientFunds },
            ExtrinsicError { index: 3, error: DispatchError::AlreadyClaimed },
        ])
    );
    assert_eq!(runtime.system.nonce(&bob), 3);
    assert_eq!(runtime.system.nonce(&"alice".to_string()), 2);
    assert_eq!(runtime.proof_of_existence.get_claim(&"x".to_string()), Some(&bob));
    assert_eq!(runtime.balances.get_balance(&bob), 3);
}

#[test]
fn dispatch_routes_each_call() {
    let mut runtime = with_alice_100();
    let alice = "alice".to_string();
    let bob = "bob".to_string();
    assert_eq!(runtime.dispatch(alice.clone(), RuntimeCall::BalancesTransfer { to: bob.clone(), amount: 40 }), Ok(()));
    assert_eq!(
        runtime.dispatch(alice.clone(), RuntimeCall::Balances(balances::Call::Transfer { to: bob.clone(), amount: 20 })),
        Ok(())
    );
    assert_eq!(runtime.balances.get_balance(&alice), 40);
    assert_eq!(runtime.balances.get_balance(&bob), 60);
    assert_eq!(
        runtime.dispatch(bob.clone(), RuntimeCall::ProofOfExistence(proof_of_existence::Call::CreateClaim { content: "doc".to_string() })),
        Ok(())
    );
    assert_eq!(
        runtime.dispatch(alice.clone(), RuntimeCall::ProofOfExistence(proof_of_existence::Call::RevokeClaim { content: "doc".to_string() })),
        Err(DispatchError::NotOwner)
    );
    assert_eq!(
        runtime.dispatch(alice.clone(), RuntimeCall::ProofOfExistence(proof_of_existence::Call::RevokeClaim { content: "other".to_string() })),
        Err(DispatchError::NoSuchClaim)
    );
    assert_eq!(runtime.proof_of_existence.get_claim(&"doc".to_string()), Some(&bob));
    // Dispatch outside a block leaves the height and nonces alone.
    assert_eq!(runtime.system.block_number(), 0);
    assert_eq!(runtime.system.nonce(&alice), 0);
}
