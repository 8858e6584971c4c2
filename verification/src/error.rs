//! The failures a call can end in.

use vstd::prelude::*;

verus! {

/// Why a call was refused. Every failure is terminal for the call and leaves
/// account storage untouched.
#[derive(Clone, Copy, Debug, PartialEq, Eq, Structural)]
pub enum ErrorKind {
    /// The opcode is unknown or the payload does not have the shape its opcode asks for.
    InvalidInstructionData,
    /// Stored bytes do not hold a record.
    MalformedRecord,
    /// A text field or the blob is longer than a 4-byte length prefix can say.
    FieldTooLarge,
    /// The target account already holds an initialized record.
    AccountAlreadyInitialized,
    /// The account's buffer is shorter than the encoded record.
    BufferTooSmall,
    /// The account's balance is below the rent-exempt minimum for the record.
    InsufficientFunds,
    /// The signer is not the record's owner.
    Unauthorized,
    /// The account list has the wrong length or an account has the wrong role.
    InvalidAccountData,
}

} // verus!
