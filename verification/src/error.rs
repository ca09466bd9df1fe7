//! Errors reported by the codec and the record layout.

use vstd::prelude::*;

verus! {

/// Why a buffer was rejected.
#[derive(Clone, Copy, Debug, PartialEq, Eq, Structural)]
pub enum CTokenError {
    /// The instruction has no tag byte, an unknown tag, or a fixed-size field
    /// that is cut short.
    InvalidInstruction,
    /// The bytes after the tag are not the Borsh form of a proof payload.
    InvalidPayload,
    /// A stored record has the wrong length or a field that does not decode.
    InvalidAccountData,
    /// A key field was given some number of bytes other than 32.
    PubkeySizeMismatch,
}

impl CTokenError {
    /// A short description of the error, for logs and messages.
    pub fn message(&self) -> (text: &'static str)
        ensures
            text@ == self.spec_message()@,
    {
        match self {
            CTokenError::InvalidInstruction => "Invalid instruction",
            CTokenError::InvalidPayload => "Failed to deserialize the proof payload",
            CTokenError::InvalidAccountData => "Invalid account data",
            CTokenError::PubkeySizeMismatch => "Bytes does not match Pubkey size",
        }
    }

    /// The text that [`CTokenError::message`] returns.
    pub open spec fn spec_message(&self) -> &'static str {
        match self {
            CTokenError::InvalidInstruction => "Invalid instruction",
            CTokenError::InvalidPayload => "Failed to deserialize the proof payload",
            CTokenError::InvalidAccountData => "Invalid account data",
            CTokenError::PubkeySizeMismatch => "Bytes does not match Pubkey size",
        }
    }
}

} // verus!
