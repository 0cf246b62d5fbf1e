//! The instruction processor: decodes a payload, resolves the supplied
//! accounts positionally, validates preconditions, and writes the updated
//! record back.
//!
//! Per record the processor is a two-state machine: `Initialize` is the
//! only transition out of the uninitialized state, `Greet` is a self-loop
//! on the initialized state, and every other combination is rejected
//! without touching storage.

use vstd::prelude::*;
use crate::error::{DecodeError, ProcessError};
use crate::instruction::{
    lemma_instruction_round_trip, spec_decode_instruction, spec_instruction_bytes, GreetInstruction,
};
use crate::state::{
    lemma_record_round_trip, spec_decode_record, spec_record_bytes, GreetingData, RecordView,
    CURRENT_VERSION,
};

verus! {

broadcast use vstd::array::group_array_axioms;

/// The processor's capability view of one host account: its identifier,
/// the flags the host resolved for this invocation, and its raw storage.
#[derive(Clone, Debug, PartialEq, Eq)]
pub struct Account {
    /// The account's public identifier.
    pub key: [u8; 32],
    /// Whether the account signed the enclosing request.
    pub is_signer: bool,
    /// Whether the host granted write access to the account's storage.
    pub is_writable: bool,
    /// The account's raw storage bytes.
    pub data: Vec<u8>,
}

/// Mathematical model of an account: identifier and storage as sequences.
#[verifier::ext_equal]
pub struct AccountView {
    pub key: Seq<u8>,
    pub is_signer: bool,
    pub is_writable: bool,
    pub data: Seq<u8>,
}

impl View for Account {
    type V = AccountView;

    open spec fn view(&self) -> AccountView {
        AccountView {
            key: self.key@,
            is_signer: self.is_signer,
            is_writable: self.is_writable,
            data: self.data@,
        }
    }
}

/// The models of a list of accounts.
pub open spec fn views(s: Seq<Account>) -> Seq<AccountView> {
    s.map_values(|a: Account| a@)
}

/// What the authority check decides: the supplied account must carry the
/// stored authority's identifier, and must have signed the request.
pub open spec fn spec_check_authority(a: AccountView, expected: Seq<u8>) -> Result<(), ProcessError> {
    if a.key != expected {
        Err(ProcessError::IncorrectAuthority)
    } else if !a.is_signer {
        Err(ProcessError::MissingRequiredSignature)
    } else {
        Ok(())
    }
}

/// The `Initialize` transition on a decoded record: rejected if the
/// record is already initialized; otherwise the record becomes versioned,
/// keeps its decoded counter, and adopts the second account's identifier
/// as its authority.
pub open spec fn spec_initialize(accounts: Seq<AccountView>, rec: RecordView)
    -> (Result<(), ProcessError>, Seq<AccountView>)
    recommends accounts.len() >= 2,
{
    if rec.is_initialized() {
        (Err(ProcessError::AlreadyInitialized), accounts)
    } else {
        let new_rec = RecordView {
            version: CURRENT_VERSION,
            counter: rec.counter,
            authority: accounts[1].key,
        };
        (Ok(()), accounts.update(0, AccountView { data: spec_record_bytes(new_rec), ..accounts[0] }))
    }
}

/// The `Greet` transition on a decoded record: rejected on an
/// uninitialized record or a failed authority check; otherwise the
/// counter grows by `count` with wraparound and the record is re-encoded.
pub open spec fn spec_greet(accounts: Seq<AccountView>, rec: RecordView, count: u32)
    -> (Result<(), ProcessError>, Seq<AccountView>)
    recommends accounts.len() >= 2,
{
    if !rec.is_initialized() {
        (Err(ProcessError::Uninitialized), accounts)
    } else if spec_check_authority(accounts[1], rec.authority) is Err {
        (Err(spec_check_authority(accounts[1], rec.authority)->Err_0), accounts)
    } else {
        let new_rec = RecordView {
            version: rec.version,
            counter: vstd::wrapping::u32_specs::wrapping_add(rec.counter, count),
            authority: rec.authority,
        };
        (Ok(()), accounts.update(0, AccountView { data: spec_record_bytes(new_rec), ..accounts[0] }))
    }
}

/// One full processor step: what `process_instruction` returns and what
/// the account list holds afterwards, as a function of the old account
/// models and the raw payload.
pub open spec fn spec_process(accounts: Seq<AccountView>, input: Seq<u8>)
    -> (Result<(), ProcessError>, Seq<AccountView>)
{
    match spec_decode_instruction(input) {
        Err(e) => (Err(ProcessError::Decode(e)), accounts),
        Ok(instruction) => {
            if accounts.len() < 2 {
                (Err(ProcessError::NotEnoughAccounts), accounts)
            } else {
                match spec_decode_record(accounts[0].data) {
                    Err(e) => (Err(ProcessError::Decode(e)), accounts),
                    Ok(rec) => match instruction {
                        GreetInstruction::Initialize => spec_initialize(accounts, rec),
                        GreetInstruction::Greet { count } => spec_greet(accounts, rec, count),
                    },
                }
            }
        },
    }
}

/// Byte-wise equality of two account identifiers.
pub fn keys_equal(a: &[u8; 32], b: &[u8; 32]) -> (r: bool)
    ensures
        r == (a@ == b@),
{
    let mut i: usize = 0;
    while i < 32
        invariant
            i <= 32,
            forall|j: int| 0 <= j < i ==> a@[j] == b@[j],
        decreases 32 - i,
    {
        if a[i] != b[i] {
            return false;
        }
        i += 1;
    }
    proof {
        assert(a@ =~= b@);
    }
    true
}

/// Checks that the supplied account is the expected authority and signed
/// the request; the identity check runs first.
pub fn check_authority(authority_info: &Account, expected_authority: &[u8; 32]) -> (r: Result<(), ProcessError>)
    ensures
        r == spec_check_authority(authority_info@, expected_authority@),
{
    if !keys_equal(&authority_info.key, expected_authority) {
        return Err(ProcessError::IncorrectAuthority);
    }
    if !authority_info.is_signer {
        return Err(ProcessError::MissingRequiredSignature);
    }
    Ok(())
}

/// Replaces the storage of the first account with the record's encoding.
fn write_back(accounts: &mut Vec<Account>, record: &GreetingData)
    requires
        old(accounts)@.len() >= 1,
    ensures
        views(final(accounts)@) == views(old(accounts)@).update(0, AccountView {
            data: spec_record_bytes(record@),
            ..views(old(accounts)@)[0]
        }),
{
    let mut first = accounts.remove(0);
    first.data = record.encode();
    accounts.insert(0, first);
    proof {
        assert(views(accounts@) =~= views(old(accounts)@).update(0, AccountView {
            data: spec_record_bytes(record@),
            ..views(old(accounts)@)[0]
        }));
    }
}

/// Law: on an uninitialized record whose decoded counter is zero,
/// `Initialize` succeeds, and the stored bytes afterwards decode to a
/// record with the current version, the supplied authority, and a zero
/// counter; every other account is untouched.
pub proof fn lemma_initialize_uninitialized(accounts: Seq<AccountView>, rec: RecordView)
    requires
        accounts.len() >= 2,
        accounts[1].key.len() == 32,
        spec_decode_record(accounts[0].data) == Ok::<RecordView, DecodeError>(rec),
        !rec.is_initialized(),
        rec.counter == 0,
    ensures
        ({
            let (res, accs) = spec_process(accounts, spec_instruction_bytes(GreetInstruction::Initialize));
            &&& res is Ok
            &&& accs.len() == accounts.len()
            &&& spec_decode_record(accs[0].data) == Ok::<RecordView, DecodeError>(RecordView {
                version: CURRENT_VERSION,
                counter: 0,
                authority: accounts[1].key,
            })
            &&& forall|i: int| 1 <= i < accounts.len() ==> accs[i] == accounts[i]
        }),
{
    lemma_instruction_round_trip(GreetInstruction::Initialize);
    let new_rec = RecordView {
        version: CURRENT_VERSION,
        counter: rec.counter,
        authority: accounts[1].key,
    };
    lemma_record_round_trip(new_rec);
}

/// Law: `Initialize` on an already-initialized record fails with
/// "already initialized" and leaves every account unchanged.
pub proof fn lemma_initialize_already_initialized(accounts: Seq<AccountView>, rec: RecordView)
    requires
        accounts.len() >= 2,
        spec_decode_record(accounts[0].data) == Ok::<RecordView, DecodeError>(rec),
        rec.is_initialized(),
    ensures
        spec_process(accounts, spec_instruction_bytes(GreetInstruction::Initialize))
            == (Err::<(), ProcessError>(ProcessError::AlreadyInitialized), accounts),
{
    lemma_instruction_round_trip(GreetInstruction::Initialize);
}

/// Law: `Greet` on an uninitialized record fails with "uninitialized
/// account" and leaves every account unchanged.
pub proof fn lemma_greet_uninitialized(accounts: Seq<AccountView>, rec: RecordView, count: u32)
    requires
        accounts.len() >= 2,
        spec_decode_record(accounts[0].data) == Ok::<RecordView, DecodeError>(rec),
        !rec.is_initialized(),
    ensures
        spec_process(accounts, spec_instruction_bytes(GreetInstruction::Greet { count }))
            == (Err::<(), ProcessError>(ProcessError::Uninitialized), accounts),
{
    lemma_instruction_round_trip(GreetInstruction::Greet { count });
}

/// Law: `Greet` with an authority identifier that does not match the
/// stored authority fails with incorrect-authority, whatever the signer
/// flag says, and leaves every account unchanged.
pub proof fn lemma_greet_wrong_authority(accounts: Seq<AccountView>, rec: RecordView, count: u32)
    requires
        accounts.len() >= 2,
        spec_decode_record(accounts[0].data) == Ok::<RecordView, DecodeError>(rec),
        rec.is_initialized(),
        accounts[1].key != rec.authority,
    ensures
        spec_process(accounts, spec_instruction_bytes(GreetInstruction::Greet { count }))
            == (Err::<(), ProcessError>(ProcessError::IncorrectAuthority), accounts),
{
    lemma_instruction_round_trip(GreetInstruction::Greet { count });
}

/// Law: `Greet` with the correct authority identifier but without a
/// valid signer flag fails with missing-signature and leaves every
/// account unchanged.
pub proof fn lemma_greet_missing_signature(accounts: Seq<AccountView>, rec: RecordView, count: u32)
    requires
        accounts.len() >= 2,
        spec_decode_record(accounts[0].data) == Ok::<RecordView, DecodeError>(rec),
        rec.is_initialized(),
        accounts[1].key == rec.authority,
        !accounts[1].is_signer,
    ensures
        spec_process(accounts, spec_instruction_bytes(GreetInstruction::Greet { count }))
            == (Err::<(), ProcessError>(ProcessError::MissingRequiredSignature), accounts),
{
    lemma_instruction_round_trip(GreetInstruction::Greet { count });
}

/// Law: on an initialized record with a matching, signing authority, two
/// `Greet` steps with increments `c1` and `c2` succeed and end in exactly
/// the state a single `Greet` with the wrapping sum `c1 + c2` reaches.
pub proof fn lemma_greet_additive(accounts: Seq<AccountView>, rec: RecordView, c1: u32, c2: u32)
    requires
        accounts.len() >= 2,
        spec_decode_record(accounts[0].data) == Ok::<RecordView, DecodeError>(rec),
        rec.is_initialized(),
        accounts[1].key == rec.authority,
        accounts[1].is_signer,
    ensures
        ({
            let (r1, accs1) = spec_process(accounts, spec_instruction_bytes(GreetInstruction::Greet { count: c1 }));
            let (r2, accs2) = spec_process(accs1, spec_instruction_bytes(GreetInstruction::Greet { count: c2 }));
            let (r12, accs12) = spec_process(accounts, spec_instruction_bytes(GreetInstruction::Greet {
                count: vstd::wrapping::u32_specs::wrapping_add(c1, c2),
            }));
            &&& r1 is Ok
            &&& r2 is Ok
            &&& r12 is Ok
            &&& accs2 == accs12
        }),
{
    lemma_instruction_round_trip(GreetInstruction::Greet { count: c1 });
    lemma_instruction_round_trip(GreetInstruction::Greet { count: c2 });
    lemma_instruction_round_trip(GreetInstruction::Greet {
        count: vstd::wrapping::u32_specs::wrapping_add(c1, c2),
    });
    assert(rec.authority.len() == 32);
    let rec1 = RecordView {
        version: rec.version,
        counter: vstd::wrapping::u32_specs::wrapping_add(rec.counter, c1),
        authority: rec.authority,
    };
    lemma_record_round_trip(rec1);
    let (r1, accs1) = spec_process(accounts, spec_instruction_bytes(GreetInstruction::Greet { count: c1 }));
    assert(accs1[1] == accounts[1]);
    assert(spec_decode_record(accs1[0].data) == Ok::<RecordView, DecodeError>(rec1));
    let rec2 = RecordView {
        version: rec.version,
        counter: vstd::wrapping::u32_specs::wrapping_add(rec1.counter, c2),
        authority: rec.authority,
    };
    let rec12 = RecordView {
        version: rec.version,
        counter: vstd::wrapping::u32_specs::wrapping_add(
            rec.counter,
            vstd::wrapping::u32_specs::wrapping_add(c1, c2),
        ),
        authority: rec.authority,
    };
    assert(rec2.counter == rec12.counter);
    let (r2, accs2) = spec_process(accs1, spec_instruction_bytes(GreetInstruction::Greet { count: c2 }));
    let (r12, accs12) = spec_process(accounts, spec_instruction_bytes(GreetInstruction::Greet {
        count: vstd::wrapping::u32_specs::wrapping_add(c1, c2),
    }));
    assert(accs2 =~= accs12);
}

/// Invariant: a successful step always leaves the first account holding
/// an initialized record — once initialized, a record never returns to
/// the uninitialized state.
pub proof fn lemma_success_leaves_initialized(accounts: Seq<AccountView>, input: Seq<u8>)
    requires
        accounts.len() >= 2,
        accounts[1].key.len() == 32,
        spec_process(accounts, input).0 is Ok,
    ensures
        ({
            let (res, accs) = spec_process(accounts, input);
            &&& spec_decode_record(accs[0].data) is Ok
            &&& spec_decode_record(accs[0].data)->Ok_0.is_initialized()
        }),
{
    let rec = spec_decode_record(accounts[0].data)->Ok_0;
    assert(rec.authority.len() == 32);
    match spec_decode_instruction(input) {
        Ok(GreetInstruction::Initialize) => {
            let new_rec = RecordView {
                version: CURRENT_VERSION,
                counter: rec.counter,
                authority: accounts[1].key,
            };
            lemma_record_round_trip(new_rec);
        },
        Ok(GreetInstruction::Greet { count }) => {
            let new_rec = RecordView {
                version: rec.version,
                counter: vstd::wrapping::u32_specs::wrapping_add(rec.counter, count),
                authority: rec.authority,
            };
            lemma_record_round_trip(new_rec);
        },
        Err(_) => {},
    }
}

/// Executes one instruction against the supplied account list.
///
/// The result and the final account contents are exactly those of
/// `spec_process` on the old account models; in particular every failure
/// leaves the accounts unchanged.
pub fn process_instruction(_program_id: &[u8; 32], accounts: &mut Vec<Account>, input: &[u8])
    -> (r: Result<(), ProcessError>)
    ensures
        ({
            let (res, accs) = spec_process(views(old(accounts)@), input@);
            r == res && views(final(accounts)@) == accs
        }),
{
    let instruction = match GreetInstruction::decode(input) {
        Ok(i) => i,
        Err(e) => {
            return Err(ProcessError::Decode(e));
        },
    };
    if accounts.len() < 2 {
        return Err(ProcessError::NotEnoughAccounts);
    }
    proof {
        assert(views(accounts@)[0] == accounts@[0]@);
        assert(views(accounts@)[1] == accounts@[1]@);
    }
    let account_data = match GreetingData::decode(accounts[0].data.as_slice()) {
        Ok(d) => d,
        Err(e) => {
            return Err(ProcessError::Decode(e));
        },
    };
    match instruction {
        GreetInstruction::Initialize => {
            if account_data.is_initialized() {
                return Err(ProcessError::AlreadyInitialized);
            }
            let new_data = GreetingData {
                version: CURRENT_VERSION,
                counter: account_data.counter,
                authority: accounts[1].key,
            };
            write_back(accounts, &new_data);
            Ok(())
        },
        GreetInstruction::Greet { count } => {
            if !account_data.is_initialized() {
                return Err(ProcessError::Uninitialized);
            }
            match check_authority(&accounts[1], &account_data.authority) {
                Err(e) => {
                    return Err(e);
                },
                Ok(()) => {},
            }
            let new_data = GreetingData {
                version: account_data.version,
                counter: account_data.counter.wrapping_add(count),
                authority: account_data.authority,
            };
            write_back(accounts, &new_data);
            Ok(())
        },
    }
}

} // verus!
