//! Failure taxonomy: codec failures and processor failures.

use vstd::prelude::*;

verus! {

/// Why a byte buffer could not be decoded into a record or an instruction.
#[derive(Clone, Copy, Debug, PartialEq, Eq)]
pub enum DecodeError {
    /// The buffer length does not match the fixed layout of the value.
    UnexpectedLength,
    /// The leading instruction tag byte names no known variant.
    UnknownTag,
}

/// The typed failures the processor can return to the host.
#[derive(Clone, Copy, Debug, PartialEq, Eq)]
pub enum ProcessError {
    /// The instruction payload or the stored record bytes are malformed.
    Decode(DecodeError),
    /// The account list is shorter than the operation requires.
    NotEnoughAccounts,
    /// `Initialize` was invoked on a record that is already initialized.
    AlreadyInitialized,
    /// `Greet` was invoked on a record that was never initialized.
    Uninitialized,
    /// The supplied authority account does not match the stored authority.
    IncorrectAuthority,
    /// The matching authority account did not sign the invocation.
    MissingRequiredSignature,
}

} // verus!
