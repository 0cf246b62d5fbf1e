//! Persisted record layout and its codec.
//!
//! A record occupies exactly 37 bytes of account storage:
//! one version byte, a little-endian `u32` counter, and a 32-byte
//! authority identifier.

use vstd::prelude::*;
use vstd::bytes::{spec_u32_from_le_bytes, spec_u32_to_le_bytes, lemma_auto_spec_u32_to_from_le_bytes};
use crate::error::DecodeError;

verus! {

broadcast use vstd::array::group_array_axioms;

/// The version byte written on newly initialized records. Any other
/// version value marks the record as uninitialized.
pub const CURRENT_VERSION: u8 = 1;

/// Total size of the persisted layout: 1 (version) + 4 (counter) + 32 (authority).
pub const RECORD_LEN: usize = 37;

/// The state stored in a record account.
#[derive(Clone, Copy, Debug, PartialEq, Eq)]
pub struct GreetingData {
    /// Struct version; `CURRENT_VERSION` marks the record as initialized.
    pub version: u8,
    /// Number of accumulated greetings.
    pub counter: u32,
    /// The identifier of the sole account allowed to update the record.
    pub authority: [u8; 32],
}

/// Mathematical model of a record: the authority as a byte sequence.
#[verifier::ext_equal]
pub struct RecordView {
    pub version: u8,
    pub counter: u32,
    pub authority: Seq<u8>,
}

impl View for GreetingData {
    type V = RecordView;

    open spec fn view(&self) -> RecordView {
        RecordView { version: self.version, counter: self.counter, authority: self.authority@ }
    }
}

impl RecordView {
    /// A record view that could come from a real `GreetingData` value.
    pub open spec fn wf(self) -> bool {
        self.authority.len() == 32
    }

    pub open spec fn is_initialized(self) -> bool {
        self.version == CURRENT_VERSION
    }
}

/// The exact 37-byte encoding of a record.
pub open spec fn spec_record_bytes(v: RecordView) -> Seq<u8> {
    seq![v.version] + spec_u32_to_le_bytes(v.counter) + v.authority
}

/// The decoding of a byte buffer into a record: any buffer of exactly
/// `RECORD_LEN` bytes decodes, anything else is rejected.
pub open spec fn spec_decode_record(b: Seq<u8>) -> Result<RecordView, DecodeError> {
    if b.len() == RECORD_LEN {
        Ok(RecordView {
            version: b[0],
            counter: spec_u32_from_le_bytes(b.subrange(1, 5)),
            authority: b.subrange(5, 37),
        })
    } else {
        Err(DecodeError::UnexpectedLength)
    }
}

impl GreetingData {
    /// Whether this record has gone through initialization.
    pub fn is_initialized(&self) -> (r: bool)
        ensures
            r == self@.is_initialized(),
    {
        self.version == CURRENT_VERSION
    }

    /// Serializes the record into its fixed 37-byte layout.
    pub fn encode(&self) -> (out: Vec<u8>)
        ensures
            out@ == spec_record_bytes(self@),
            out@.len() == RECORD_LEN,
    {
        let mut out: Vec<u8> = Vec::new();
        out.push(self.version);
        let mut counter_bytes = vstd::bytes::u32_to_le_bytes(self.counter);
        out.append(&mut counter_bytes);
        let mut i: usize = 0;
        while i < 32
            invariant
                i <= 32,
                out@ == seq![self.version] + spec_u32_to_le_bytes(self.counter)
                    + self.authority@.subrange(0, i as int),
            decreases 32 - i,
        {
            out.push(self.authority[i]);
            i += 1;
            assert(self.authority@.subrange(0, i as int)
                =~= self.authority@.subrange(0, i - 1) + seq![self.authority@[i - 1]]);
        }
        assert(self.authority@.subrange(0, 32) =~= self.authority@);
        out
    }

    /// Deserializes a record from raw account bytes; rejects any buffer
    /// whose length does not match the fixed layout.
    pub fn decode(bytes: &[u8]) -> (r: Result<GreetingData, DecodeError>)
        ensures
            match r {
                Ok(d) => spec_decode_record(bytes@) == Ok::<RecordView, DecodeError>(d@),
                Err(e) => spec_decode_record(bytes@) == Err::<RecordView, DecodeError>(e),
            },
    {
        if bytes.len() != RECORD_LEN {
            return Err(DecodeError::UnexpectedLength);
        }
        let version = bytes[0];
        let counter = vstd::bytes::u32_from_le_bytes(&bytes[1..5]);
        let mut authority: [u8; 32] = [0; 32];
        let mut i: usize = 0;
        while i < 32
            invariant
                i <= 32,
                bytes@.len() == RECORD_LEN,
                authority@.len() == 32,
                forall|j: int| 0 <= j < i ==> authority@[j] == bytes@[5 + j],
            decreases 32 - i,
        {
            authority[i] = bytes[5 + i];
            i += 1;
        }
        let d = GreetingData { version, counter, authority };
        proof {
            assert(d@.authority =~= bytes@.subrange(5, 37));
            assert(spec_decode_record(bytes@) == Ok::<RecordView, DecodeError>(d@));
        }
        Ok(d)
    }
}

/// Round-trip law: decoding the bytes produced by encoding any valid
/// record returns that same record.
pub proof fn lemma_record_round_trip(v: RecordView)
    requires
        v.wf(),
    ensures
        spec_decode_record(spec_record_bytes(v)) == Ok::<RecordView, DecodeError>(v),
{
    lemma_auto_spec_u32_to_from_le_bytes();
    let b = spec_record_bytes(v);
    assert(b.len() == RECORD_LEN);
    assert(b.subrange(1, 5) =~= spec_u32_to_le_bytes(v.counter));
    assert(b.subrange(5, 37) =~= v.authority);
    assert(spec_decode_record(b)->Ok_0 =~= v);
}

} // verus!
