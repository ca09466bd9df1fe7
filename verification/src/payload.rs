//! Values that the proof system produces and that this crate only carries:
//! balance commitments and the payloads of the operations that move value.
//!
//! Nothing here looks inside them. A commitment is 32 bytes; a payload is a
//! byte string that the verifier knows how to read.

use crate::pubkey::array_from_slice;
use vstd::prelude::*;

verus! {

/// Number of bytes in a commitment.
pub const COMMITMENT_BYTES: usize = 32;

/// The most bytes a payload can hold: its length has to fit the four-byte
/// prefix of its wire form.
pub const MAX_PAYLOAD_BYTES: usize = 0xffff_ffff;

/// A commitment to a hidden balance.
#[derive(Clone, Copy, Debug, PartialEq, Eq)]
pub struct PedersenComm(pub [u8; 32]);

impl View for PedersenComm {
    type V = Seq<u8>;

    open spec fn view(&self) -> Seq<u8> {
        self.0@
    }
}

impl PedersenComm {
    /// Wraps 32 bytes as a commitment.
    pub fn new_from_array(bytes: [u8; 32]) -> (comm: PedersenComm)
        ensures
            comm.0 == bytes,
    {
        PedersenComm(bytes)
    }

    /// Reads a commitment from a slice of exactly 32 bytes.
    pub fn new(bytes: &[u8]) -> (comm: PedersenComm)
        requires
            bytes@.len() == COMMITMENT_BYTES,
        ensures
            comm@ == bytes@,
    {
        PedersenComm(array_from_slice(bytes))
    }

    /// The 32 bytes of the commitment.
    pub fn to_bytes(&self) -> (bytes: [u8; 32])
        ensures
            bytes == self.0,
    {
        self.0
    }
}

/// The payload of a mint operation: what the verifier needs to attest the
/// minted amount and the commitment it yields.
#[derive(Debug, PartialEq, Eq)]
pub struct MintData {
    bytes: Vec<u8>,
}

impl View for MintData {
    type V = Seq<u8>;

    closed spec fn view(&self) -> Seq<u8> {
        self.bytes@
    }
}

impl Clone for MintData {
    /// A copy with the same bytes.
    fn clone(&self) -> (copy: Self)
        ensures
            copy@ == self@,
    {
        proof {
            use_type_invariant(self);
        }
        let bytes = self.bytes.clone();
        assert(bytes@ =~= self.bytes@);
        MintData { bytes }
    }
}

impl MintData {
    #[verifier::type_invariant]
    spec fn within_limit(self) -> bool {
        self.bytes@.len() <= MAX_PAYLOAD_BYTES
    }

    /// Wraps a byte string as a payload, unless it is too long to be sent.
    pub fn new(bytes: Vec<u8>) -> (data: Option<MintData>)
        ensures
            data is Some <==> bytes@.len() <= MAX_PAYLOAD_BYTES,
            data matches Some(d) ==> d@ == bytes@,
    {
        if bytes.len() <= MAX_PAYLOAD_BYTES {
            Some(MintData { bytes })
        } else {
            None
        }
    }

    /// The bytes of the payload.
    pub fn as_bytes(&self) -> (bytes: &[u8])
        ensures
            bytes@ == self@,
            bytes@.len() <= MAX_PAYLOAD_BYTES,
    {
        proof {
            use_type_invariant(self);
        }
        self.bytes.as_slice()
    }
}

/// The payload of a transfer: what the verifier needs to attest the new
/// commitments of the two accounts.
#[derive(Debug, PartialEq, Eq)]
pub struct TransferData {
    bytes: Vec<u8>,
}

impl View for TransferData {
    type V = Seq<u8>;

    closed spec fn view(&self) -> Seq<u8> {
        self.bytes@
    }
}

impl Clone for TransferData {
    /// A copy with the same bytes.
    fn clone(&self) -> (copy: Self)
        ensures
            copy@ == self@,
    {
        proof {
            use_type_invariant(self);
        }
        let bytes = self.bytes.clone();
        assert(bytes@ =~= self.bytes@);
        TransferData { bytes }
    }
}

impl TransferData {
    #[verifier::type_invariant]
    spec fn within_limit(self) -> bool {
        self.bytes@.len() <= MAX_PAYLOAD_BYTES
    }

    /// Wraps a byte string as a payload, unless it is too long to be sent.
    pub fn new(bytes: Vec<u8>) -> (data: Option<TransferData>)
        ensures
            data is Some <==> bytes@.len() <= MAX_PAYLOAD_BYTES,
            data matches Some(d) ==> d@ == bytes@,
    {
        if bytes.len() <= MAX_PAYLOAD_BYTES {
            Some(TransferData { bytes })
        } else {
            None
        }
    }

    /// The bytes of the payload.
    pub fn as_bytes(&self) -> (bytes: &[u8])
        ensures
            bytes@ == self@,
            bytes@.len() <= MAX_PAYLOAD_BYTES,
    {
        proof {
            use_type_invariant(self);
        }
        self.bytes.as_slice()
    }
}

} // verus!
