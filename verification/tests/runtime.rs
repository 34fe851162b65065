use state_machine::balances;
use state_machine::proof_of_existence;
use state_machine::support::{Block, Dispatch, Extrinsic, Header};
use state_machine::types;
use state_machine::{Runtime, RuntimeCall};

fn name(s: &str) -> String {
    s.to_string()
}

fn transfer(caller: &str, to: &str, amount: u128) -> types::Extrinsic {
    Extrinsic {
        caller: name(caller),
        call: RuntimeCall::Balances(balances::Call::transfer { to: name(to), amount }),
    }
}

fn create_claim(caller: &str, claim: &'static str) -> types::Extrinsic {
    Extrinsic {
        caller: name(caller),
        call: RuntimeCall::ProofOfExistence(proof_of_existence::Call::create_claim { claim }),
    }
}

fn revoke_claim(caller: &str, claim: &'static str) -> types::Extrinsic {
    Extrinsic {
        caller: name(caller),
        call: RuntimeCall::ProofOfExistence(proof_of_existence::Call::revoke_claim { claim }),
    }
}

fn block(number: u32, extrinsics: Vec<types::Extrinsic>) -> types::Block {
    Block { header: Header { block_number: number }, extrinsics }
}

#[test]
fn new_runtime_is_empty() {
    let runtime = Runtime::new();
    assert_eq!(runtime.system.block_number(), 0);
    assert_eq!(runtime.system.nonce(&name("alice")), 0);
    assert_eq!(runtime.balances.balance(&name("alice")), 0);
    assert_eq!(runtime.proof_of_existence.get_claim(&"claim"), None);
}

#[test]
fn two_blocks_end_to_end() {
    let mut runtime = Runtime::new();
    let alice = name("alice");
    let bob = name("bob");
    let charlie = name("charlie");
    runtime.balances.set_balance(&alice, 100);

    let block_1 = block(1, vec![transfer("alice", "bob", 30), transfer("alice", "charlie", 30)]);
    let report = runtime.execute_block(block_1).expect("invalid block");
    assert!(report.is_empty());
    assert_eq!(runtime.system.block_number(), 1);
    assert_eq!(runtime.balances.balance(&alice), 40);
    assert_eq!(runtime.balances.balance(&bob), 30);
    assert_eq!(runtime.balances.balance(&charlie), 30);
    assert_eq!(runtime.system.nonce(&alice), 2);

    let block_2 = block(2, vec![create_claim("alice", "claim")]);
    let report = runtime.execute_block(block_2).expect("invalid block");
    assert!(report.is_empty());
    assert_eq!(runtime.system.block_number(), 2);
    assert_eq!(runtime.proof_of_existence.get_claim(&"claim"), Some(&alice));
    assert_eq!(runtime.system.nonce(&alice), 3);
    assert_eq!(runtime.system.nonce(&bob), 0);
}

#[test]
fn refused_extrinsic_does_not_stop_the_block() {
    let mut runtime = Runtime::new();
    let alice = name("alice");
    let bob = name("bob");
    runtime.balances.set_balance(&alice, 100);

    let result =
        runtime.execute_block(block(1, vec![transfer("alice", "bob", 1000), transfer("alice", "bob", 10)]));
    let report = result.expect("the block is accepted");
    assert_eq!(report.len(), 1);
    assert_eq!(report[0].block_number, 1);
    assert_eq!(report[0].index, 0);
    assert_eq!(report[0].reason, "Not enough funds.");
    assert_eq!(runtime.balances.balance(&bob), 10);
    assert_eq!(runtime.balances.balance(&alice), 90);
    assert_eq!(runtime.system.nonce(&alice), 2);
    assert_eq!(runtime.system.block_number(), 1);
}

#[test]
fn wrong_block_number_is_refused_and_only_the_counter_moves() {
    let mut runtime = Runtime::new();
    let alice = name("alice");
    let bob = name("bob");
    runtime.balances.set_balance(&alice, 100);
    assert!(runtime.execute_block(block(1, vec![create_claim("alice", "x")])).is_ok());

    let refused = runtime.execute_block(block(
        5,
        vec![transfer("alice", "bob", 10), revoke_claim("alice", "x"), create_claim("bob", "y")],
    ));
    assert_eq!(refused.err(), Some("block number does not match what is expected"));
    assert_eq!(runtime.system.block_number(), 2);
    assert_eq!(runtime.balances.balance(&alice), 100);
    assert_eq!(runtime.balances.balance(&bob), 0);
    assert_eq!(runtime.proof_of_existence.get_claim(&"x"), Some(&alice));
    assert_eq!(runtime.proof_of_existence.get_claim(&"y"), None);
    assert_eq!(runtime.system.nonce(&alice), 1);
    assert_eq!(runtime.system.nonce(&bob), 0);

    // The counter moved, so the block that is accepted next is number 3.
    assert!(runtime.execute_block(block(2, vec![])).is_err());
    assert_eq!(runtime.system.block_number(), 3);
    assert!(runtime.execute_block(block(4, vec![])).is_ok());
    assert_eq!(runtime.system.block_number(), 4);
}

#[test]
fn block_number_advances_once_per_block() {
    let mut runtime = Runtime::new();
    runtime.balances.set_balance(&name("alice"), 5);
    assert!(runtime.execute_block(block(1, vec![])).is_ok());
    assert_eq!(runtime.system.block_number(), 1);
    let many = vec![
        transfer("alice", "bob", 1),
        transfer("alice", "bob", 1),
        transfer("alice", "bob", 100),
        transfer("bob", "alice", 2),
        create_claim("bob", "x"),
    ];
    let report = runtime.execute_block(block(2, many)).expect("the block is accepted");
    assert_eq!(runtime.system.block_number(), 2);
    assert_eq!(report.len(), 1);
    assert_eq!(report[0].index, 2);
    assert_eq!(report[0].block_number, 2);
    assert_eq!(runtime.system.nonce(&name("alice")), 3);
    assert_eq!(runtime.system.nonce(&name("bob")), 2);
    assert_eq!(runtime.balances.balance(&name("alice")), 5);
    assert_eq!(runtime.balances.balance(&name("bob")), 0);
    assert!(runtime.execute_block(block(0, vec![])).is_err());
    assert_eq!(runtime.system.block_number(), 3);
}

#[test]
fn later_extrinsics_see_earlier_ones() {
    let mut runtime = Runtime::new();
    runtime.balances.set_balance(&name("alice"), 10);
    let report = runtime
        .execute_block(block(
            1,
            vec![
                transfer("bob", "charlie", 10),
                transfer("alice", "bob", 10),
                transfer("bob", "charlie", 10),
                create_claim("alice", "x"),
                create_claim("bob", "x"),
                revoke_claim("bob", "x"),
                revoke_claim("bob", "y"),
                revoke_claim("alice", "x"),
                create_claim("bob", "x"),
            ],
        ))
        .expect("the block is accepted");
    let seen: Vec<(usize, &str)> = report.iter().map(|f| (f.index, f.reason)).collect();
    assert_eq!(
        seen,
        vec![
            (0, "Not enough funds."),
            (4, "this content is already claimed"),
            (5, "this content is owned by someone else"),
            (6, "claim does not exist"),
        ]
    );
    assert_eq!(runtime.balances.balance(&name("alice")), 0);
    assert_eq!(runtime.balances.balance(&name("bob")), 0);
    assert_eq!(runtime.balances.balance(&name("charlie")), 10);
    assert_eq!(runtime.proof_of_existence.get_claim(&"x"), Some(&name("bob")));
    assert_eq!(runtime.system.nonce(&name("alice")), 3);
    assert_eq!(runtime.system.nonce(&name("bob")), 6);
    assert_eq!(runtime.system.nonce(&name("charlie")), 0);
}

#[test]
fn runtime_dispatch_routes_to_the_owning_pallet() {
    let mut runtime = Runtime::new();
    runtime.balances.set_balance(&name("alice"), 10);
    assert_eq!(
        runtime.dispatch(
            name("alice"),
            RuntimeCall::Balances(balances::Call::transfer { to: name("bob"), amount: 3 })
        ),
        Ok(())
    );
    assert_eq!(runtime.balances.balance(&name("bob")), 3);
    assert_eq!(
        runtime.dispatch(
            name("alice"),
            RuntimeCall::Balances(balances::Call::transfer { to: name("bob"), amount: 8 })
        ),
        Err("Not enough funds.")
    );
    assert_eq!(
        runtime.dispatch(
            name("alice"),
            RuntimeCall::ProofOfExistence(proof_of_existence::Call::create_claim { claim: "x" })
        ),
        Ok(())
    );
    assert_eq!(
        runtime.dispatch(
            name("bob"),
            RuntimeCall::ProofOfExistence(proof_of_existence::Call::revoke_claim { claim: "x" })
        ),
        Err("this content is owned by someone else")
    );
    // Dispatch alone touches neither counter.
    assert_eq!(runtime.system.nonce(&name("alice")), 0);
    assert_eq!(runtime.system.block_number(), 0);
}

#[test]
fn room_for_nonces_is_checked_per_author() {
    let mut runtime = Runtime::new();
    assert!(runtime.has_room_for(&block(1, vec![])));
    assert!(runtime.has_room_for(&block(
        1,
        vec![transfer("alice", "bob", 1), create_claim("alice", "x"), create_claim("bob", "y")]
    )));
    assert!(runtime.execute_block(block(1, vec![create_claim("alice", "x")])).is_ok());
    assert!(runtime.has_room_for(&block(7, vec![revoke_claim("alice", "x")])));
}
