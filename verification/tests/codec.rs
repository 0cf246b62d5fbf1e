//! Tests for the record and instruction codecs, including cross-checks
//! against the borsh implementation of the same fixed layout.

use greet_record::error::DecodeError;
use greet_record::instruction::GreetInstruction;
use greet_record::state::{GreetingData, CURRENT_VERSION, RECORD_LEN};

fn sample_record() -> GreetingData {
    GreetingData { version: CURRENT_VERSION, counter: 5, authority: [7u8; 32] }
}

#[test]
fn record_encode_layout_exact() {
    let record = GreetingData { version: 1, counter: 0x0102_0304, authority: [9u8; 32] };
    let mut expected = vec![1u8, 0x04, 0x03, 0x02, 0x01];
    expected.extend_from_slice(&[9u8; 32]);
    assert_eq!(record.encode(), expected);
}

#[test]
fn record_encode_len_is_constant() {
    assert_eq!(sample_record().encode().len(), RECORD_LEN);
    let other = GreetingData { version: 0, counter: u32::MAX, authority: [0u8; 32] };
    assert_eq!(other.encode().len(), RECORD_LEN);
}

#[test]
fn record_round_trip() {
    let record = sample_record();
    assert_eq!(GreetingData::decode(&record.encode()), Ok(record));
    let uninit = GreetingData { version: 0, counter: 123, authority: [3u8; 32] };
    assert_eq!(GreetingData::decode(&uninit.encode()), Ok(uninit));
}

#[test]
fn record_decode_rejects_short_buffer() {
    assert_eq!(GreetingData::decode(&[0u8; 36]), Err(DecodeError::UnexpectedLength));
    assert_eq!(GreetingData::decode(&[]), Err(DecodeError::UnexpectedLength));
}

#[test]
fn record_decode_rejects_long_buffer() {
    assert_eq!(GreetingData::decode(&[0u8; 38]), Err(DecodeError::UnexpectedLength));
}

#[test]
fn record_is_initialized_follows_version() {
    assert!(sample_record().is_initialized());
    let uninit = GreetingData { version: 0, counter: 0, authority: [0u8; 32] };
    assert!(!uninit.is_initialized());
    let future = GreetingData { version: 2, counter: 0, authority: [0u8; 32] };
    assert!(!future.is_initialized());
}

#[test]
fn instruction_encode_initialize() {
    assert_eq!(GreetInstruction::Initialize.encode(), vec![0u8]);
}

#[test]
fn instruction_encode_greet() {
    assert_eq!(GreetInstruction::Greet { count: 3 }.encode(), vec![1u8, 3, 0, 0, 0]);
    assert_eq!(
        GreetInstruction::Greet { count: 0x0102_0304 }.encode(),
        vec![1u8, 0x04, 0x03, 0x02, 0x01]
    );
}

#[test]
fn instruction_round_trip() {
    for instruction in [
        GreetInstruction::Initialize,
        GreetInstruction::Greet { count: 0 },
        GreetInstruction::Greet { count: u32::MAX },
    ] {
        assert_eq!(GreetInstruction::decode(&instruction.encode()), Ok(instruction));
    }
}

#[test]
fn instruction_decode_rejects_empty() {
    assert_eq!(GreetInstruction::decode(&[]), Err(DecodeError::UnexpectedLength));
}

#[test]
fn instruction_decode_rejects_unknown_tag() {
    assert_eq!(GreetInstruction::decode(&[2]), Err(DecodeError::UnknownTag));
    assert_eq!(GreetInstruction::decode(&[255, 0, 0, 0, 0]), Err(DecodeError::UnknownTag));
}

#[test]
fn instruction_decode_rejects_wrong_payload_length() {
    assert_eq!(GreetInstruction::decode(&[0, 0]), Err(DecodeError::UnexpectedLength));
    assert_eq!(GreetInstruction::decode(&[1]), Err(DecodeError::UnexpectedLength));
    assert_eq!(GreetInstruction::decode(&[1, 1, 2]), Err(DecodeError::UnexpectedLength));
    assert_eq!(GreetInstruction::decode(&[1, 1, 2, 3, 4, 5]), Err(DecodeError::UnexpectedLength));
}

#[test]
fn record_encoding_matches_borsh() {
    let record = sample_record();
    let borsh_bytes = borsh::to_vec(&(record.version, record.counter, record.authority)).unwrap();
    assert_eq!(record.encode(), borsh_bytes);
}

#[test]
fn record_decode_matches_borsh() {
    let record = GreetingData { version: 1, counter: 0xDEAD_BEEF, authority: [42u8; 32] };
    let bytes = record.encode();
    let decoded: (u8, u32, [u8; 32]) = borsh::BorshDeserialize::try_from_slice(&bytes).unwrap();
    assert_eq!(decoded, (record.version, record.counter, record.authority));
    assert_eq!(GreetingData::decode(&bytes), Ok(record));
}

#[test]
fn greet_instruction_encoding_matches_borsh() {
    let bytes = GreetInstruction::Greet { count: 77 }.encode();
    let mut borsh_bytes = vec![1u8];
    borsh_bytes.extend_from_slice(&borsh::to_vec(&77u32).unwrap());
    assert_eq!(bytes, borsh_bytes);
}
