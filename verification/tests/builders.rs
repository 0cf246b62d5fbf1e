//! Tests for the invocation builders: account order, access flags, and
//! payload bytes.

use greet_record::instruction::{greet, id, initialize, GreetInstruction};
use greet_record::processor::{process_instruction, Account};
use greet_record::state::{GreetingData, CURRENT_VERSION};

const RECORD_KEY: [u8; 32] = [1u8; 32];
const AUTHORITY: [u8; 32] = [2u8; 32];

#[test]
fn initialize_builder_shape() {
    let ix = initialize(&RECORD_KEY, &AUTHORITY);
    assert_eq!(ix.program_id, id());
    assert_eq!(ix.data, vec![0u8]);
    assert_eq!(ix.accounts.len(), 2);
    assert_eq!(ix.accounts[0].pubkey, RECORD_KEY);
    assert!(ix.accounts[0].is_writable);
    assert!(!ix.accounts[0].is_signer);
    assert_eq!(ix.accounts[1].pubkey, AUTHORITY);
    assert!(!ix.accounts[1].is_writable);
    assert!(!ix.accounts[1].is_signer);
}

#[test]
fn greet_builder_shape() {
    let ix = greet(&RECORD_KEY, &AUTHORITY, 3);
    assert_eq!(ix.program_id, id());
    assert_eq!(ix.data, vec![1u8, 3, 0, 0, 0]);
    assert_eq!(ix.accounts.len(), 2);
    assert_eq!(ix.accounts[0].pubkey, RECORD_KEY);
    assert!(ix.accounts[0].is_writable);
    assert!(!ix.accounts[0].is_signer);
    assert_eq!(ix.accounts[1].pubkey, AUTHORITY);
    assert!(!ix.accounts[1].is_writable);
    assert!(ix.accounts[1].is_signer);
}

#[test]
fn built_payloads_drive_the_processor() {
    // Replay what a host would do with the two built requests: resolve the
    // named accounts with the requested flags, then hand over the payloads.
    let init = initialize(&RECORD_KEY, &AUTHORITY);
    let mut accounts = vec![
        Account {
            key: init.accounts[0].pubkey,
            is_signer: init.accounts[0].is_signer,
            is_writable: init.accounts[0].is_writable,
            data: vec![0u8; 37],
        },
        Account {
            key: init.accounts[1].pubkey,
            is_signer: init.accounts[1].is_signer,
            is_writable: init.accounts[1].is_writable,
            data: Vec::new(),
        },
    ];
    assert_eq!(process_instruction(&init.program_id, &mut accounts, &init.data), Ok(()));

    let step = greet(&RECORD_KEY, &AUTHORITY, 11);
    accounts[1].is_signer = step.accounts[1].is_signer;
    assert_eq!(process_instruction(&step.program_id, &mut accounts, &step.data), Ok(()));
    assert_eq!(
        GreetingData::decode(&accounts[0].data).unwrap(),
        GreetingData { version: CURRENT_VERSION, counter: 11, authority: AUTHORITY }
    );
}

#[test]
fn builder_payloads_decode_to_their_instruction() {
    assert_eq!(
        GreetInstruction::decode(&initialize(&RECORD_KEY, &AUTHORITY).data),
        Ok(GreetInstruction::Initialize)
    );
    assert_eq!(
        GreetInstruction::decode(&greet(&RECORD_KEY, &AUTHORITY, 42).data),
        Ok(GreetInstruction::Greet { count: 42 })
    );
}
