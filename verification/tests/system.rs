use state_machine::system::{Config, Pallet};

struct TestConfig;

impl Config for TestConfig {
    type AccountId = String;
    type BlockNumber = u32;
    type Nonce = u32;
}

#[test]
fn init_system() {
    let alice = "Alice".to_string();
    let bob = "Bob".to_string();
    let mut system = Pallet::<TestConfig>::new();
    assert_eq!(system.block_number(), 0);
    system.inc_block_number();
    assert_eq!(system.block_number(), 1);

    assert_eq!(system.get_nonce(&alice), None);
    system.inc_nonce(alice.clone());
    assert_eq!(system.get_nonce(&alice), Some(1));
    assert_eq!(system.get_nonce(&bob), None);
}

#[test]
fn unseen_account_reads_zero() {
    let system = Pallet::<TestConfig>::new();
    assert_eq!(system.nonce(&"nobody".to_string()), 0);
    assert_eq!(system.get_nonce(&"nobody".to_string()), None);
}

#[test]
fn nonce_counts_every_increment() {
    let alice = "alice".to_string();
    let bob = "bob".to_string();
    let mut system = Pallet::<TestConfig>::new();
    system.inc_nonce(bob.clone());
    for k in 1..=25u32 {
        system.inc_nonce(alice.clone());
        assert_eq!(system.nonce(&alice), k);
        assert_eq!(system.nonce(&bob), 1);
    }
    assert_eq!(system.get_nonce(&alice), Some(25));
    assert_eq!(system.block_number(), 0);
}

#[test]
fn block_number_counts_every_increment() {
    let mut system = Pallet::<TestConfig>::new();
    for k in 1..=10u32 {
        system.inc_block_number();
        assert_eq!(system.block_number(), k);
    }
    assert_eq!(system.nonce(&"alice".to_string()), 0);
}
