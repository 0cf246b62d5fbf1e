//! The two supported operations, their wire codec, and invocation builders.
//!
//! An instruction payload is a leading tag byte — `0` for `Initialize`,
//! `1` for `Greet` — followed, for `Greet` only, by a little-endian `u32`
//! increment.

use vstd::prelude::*;
use vstd::bytes::{spec_u32_from_le_bytes, spec_u32_to_le_bytes, lemma_auto_spec_u32_to_from_le_bytes};
use crate::error::DecodeError;

verus! {

broadcast use vstd::array::group_array_axioms;

/// Instructions supported by the processor.
#[derive(Clone, Copy, Debug, PartialEq, Eq)]
pub enum GreetInstruction {
    /// Claim an uninitialized record for an authority.
    ///
    /// Accounts expected, in order:
    /// 0. the record account (writable);
    /// 1. the intended record authority (read-only, need not sign).
    Initialize,
    /// Add to the counter of an initialized record.
    ///
    /// Accounts expected, in order:
    /// 0. the record account (writable);
    /// 1. the current record authority (read-only, must sign).
    Greet {
        /// The amount of greetings to add, wrapping on overflow.
        count: u32,
    },
}

/// The exact payload encoding of an instruction.
pub open spec fn spec_instruction_bytes(i: GreetInstruction) -> Seq<u8> {
    match i {
        GreetInstruction::Initialize => seq![0u8],
        GreetInstruction::Greet { count } => seq![1u8] + spec_u32_to_le_bytes(count),
    }
}

/// The decoding of an instruction payload: the tag byte selects the
/// variant, and the buffer must hold exactly that variant's layout.
pub open spec fn spec_decode_instruction(b: Seq<u8>) -> Result<GreetInstruction, DecodeError> {
    if b.len() == 0 {
        Err(DecodeError::UnexpectedLength)
    } else if b[0] == 0 {
        if b.len() == 1 {
            Ok(GreetInstruction::Initialize)
        } else {
            Err(DecodeError::UnexpectedLength)
        }
    } else if b[0] == 1 {
        if b.len() == 5 {
            Ok(GreetInstruction::Greet { count: spec_u32_from_le_bytes(b.subrange(1, 5)) })
        } else {
            Err(DecodeError::UnexpectedLength)
        }
    } else {
        Err(DecodeError::UnknownTag)
    }
}

impl GreetInstruction {
    /// Serializes the instruction into its wire payload.
    pub fn encode(&self) -> (out: Vec<u8>)
        ensures
            out@ == spec_instruction_bytes(*self),
    {
        match self {
            GreetInstruction::Initialize => {
                let mut out: Vec<u8> = Vec::new();
                out.push(0);
                proof {
                    assert(out@ =~= spec_instruction_bytes(GreetInstruction::Initialize));
                }
                out
            },
            GreetInstruction::Greet { count } => {
                let mut out: Vec<u8> = Vec::new();
                out.push(1);
                let mut count_bytes = vstd::bytes::u32_to_le_bytes(*count);
                out.append(&mut count_bytes);
                proof {
                    assert(out@ =~= spec_instruction_bytes(*self));
                }
                out
            },
        }
    }

    /// Deserializes an instruction from its wire payload; rejects an
    /// unknown tag and any truncated or oversized buffer.
    pub fn decode(bytes: &[u8]) -> (r: Result<GreetInstruction, DecodeError>)
        ensures
            r == spec_decode_instruction(bytes@),
    {
        if bytes.len() == 0 {
            return Err(DecodeError::UnexpectedLength);
        }
        let tag = bytes[0];
        if tag == 0 {
            if bytes.len() == 1 {
                Ok(GreetInstruction::Initialize)
            } else {
                Err(DecodeError::UnexpectedLength)
            }
        } else if tag == 1 {
            if bytes.len() == 5 {
                let count = vstd::bytes::u32_from_le_bytes(&bytes[1..5]);
                Ok(GreetInstruction::Greet { count })
            } else {
                Err(DecodeError::UnexpectedLength)
            }
        } else {
            Err(DecodeError::UnknownTag)
        }
    }
}

/// Round-trip law: decoding the payload produced by encoding any
/// instruction returns that same instruction.
pub proof fn lemma_instruction_round_trip(i: GreetInstruction)
    ensures
        spec_decode_instruction(spec_instruction_bytes(i)) == Ok::<GreetInstruction, DecodeError>(i),
{
    lemma_auto_spec_u32_to_from_le_bytes();
    let b = spec_instruction_bytes(i);
    match i {
        GreetInstruction::Initialize => {
        },
        GreetInstruction::Greet { count } => {
            assert(b.subrange(1, 5) =~= spec_u32_to_le_bytes(count));
        },
    }
}

/// An account a built invocation asks the host to resolve, with the
/// access the operation needs on it.
#[derive(Clone, Copy, Debug, PartialEq, Eq)]
pub struct AccountMeta {
    /// The identifier of the account to resolve.
    pub pubkey: [u8; 32],
    /// Whether the account must sign the enclosing request.
    pub is_signer: bool,
    /// Whether the operation will mutate the account's storage.
    pub is_writable: bool,
}

/// A fully built invocation request: the target program, the accounts to
/// resolve in order, and the instruction payload.
#[derive(Clone, Debug, PartialEq, Eq)]
pub struct Instruction {
    /// The identifier of the program asked to process the request.
    pub program_id: [u8; 32],
    /// The accounts the operation needs, in the order it expects them.
    pub accounts: Vec<AccountMeta>,
    /// The encoded instruction payload.
    pub data: Vec<u8>,
}

/// The identifier under which this program expects to be invoked.
pub open spec fn spec_id() -> Seq<u8> {
    Seq::new(32, |i: int| 0u8)
}

/// Returns this program's identifier.
pub fn id() -> (r: [u8; 32])
    ensures
        r@ == spec_id(),
{
    let r: [u8; 32] = [0; 32];
    proof {
        assert(r@ =~= spec_id());
    }
    r
}

/// Builds an `Initialize` invocation: the record account writable, the
/// intended authority read-only and unsigned.
pub fn initialize(record_account: &[u8; 32], authority: &[u8; 32]) -> (ix: Instruction)
    ensures
        ix.program_id@ == spec_id(),
        ix.data@ == spec_instruction_bytes(GreetInstruction::Initialize),
        ix.accounts@.len() == 2,
        ix.accounts@[0] == (AccountMeta { pubkey: *record_account, is_signer: false, is_writable: true }),
        ix.accounts@[1] == (AccountMeta { pubkey: *authority, is_signer: false, is_writable: false }),
{
    let mut accounts: Vec<AccountMeta> = Vec::new();
    accounts.push(AccountMeta { pubkey: *record_account, is_signer: false, is_writable: true });
    accounts.push(AccountMeta { pubkey: *authority, is_signer: false, is_writable: false });
    Instruction { program_id: id(), accounts, data: GreetInstruction::Initialize.encode() }
}

/// Builds a `Greet` invocation: the record account writable, the signing
/// authority read-only.
pub fn greet(record_account: &[u8; 32], signer: &[u8; 32], count: u32) -> (ix: Instruction)
    ensures
        ix.program_id@ == spec_id(),
        ix.data@ == spec_instruction_bytes(GreetInstruction::Greet { count }),
        ix.accounts@.len() == 2,
        ix.accounts@[0] == (AccountMeta { pubkey: *record_account, is_signer: false, is_writable: true }),
        ix.accounts@[1] == (AccountMeta { pubkey: *signer, is_signer: true, is_writable: false }),
{
    let mut accounts: Vec<AccountMeta> = Vec::new();
    accounts.push(AccountMeta { pubkey: *record_account, is_signer: false, is_writable: true });
    accounts.push(AccountMeta { pubkey: *signer, is_signer: true, is_writable: false });
    Instruction { program_id: id(), accounts, data: GreetInstruction::Greet { count }.encode() }
}

} // verus!
