//! Account addresses: 32-byte public keys, held by value.

use vstd::prelude::*;

verus! {

/// Number of bytes in a public key.
pub const PUBKEY_BYTES: usize = 32;

/// The address of an account or a program.
#[derive(Clone, Copy, Debug, PartialEq, Eq, Hash)]
pub struct Pubkey(pub [u8; 32]);

impl View for Pubkey {
    type V = Seq<u8>;

    open spec fn view(&self) -> Seq<u8> {
        self.0@
    }
}

impl Pubkey {
    /// Wraps 32 bytes as a key.
    pub fn new_from_array(bytes: [u8; 32]) -> (key: Pubkey)
        ensures
            key.0 == bytes,
    {
        Pubkey(bytes)
    }

    /// Reads a key from a slice of exactly 32 bytes.
    pub fn new(bytes: &[u8]) -> (key: Pubkey)
        requires
            bytes@.len() == PUBKEY_BYTES,
        ensures
            key@ == bytes@,
    {
        Pubkey(array_from_slice(bytes))
    }

    /// The 32 bytes of the key.
    pub fn to_bytes(&self) -> (bytes: [u8; 32])
        ensures
            bytes == self.0,
    {
        self.0
    }

    /// The key as a byte slice.
    pub fn as_bytes(&self) -> (bytes: &[u8])
        ensures
            bytes@ == self@,
    {
        self.0.as_slice()
    }
}

/// Copies a slice of exactly 32 bytes into an array.
pub(crate) fn array_from_slice(bytes: &[u8]) -> (array: [u8; 32])
    requires
        bytes@.len() == 32,
    ensures
        array@ == bytes@,
{
    let mut array = [0u8; 32];
    let mut i: usize = 0;
    while i < 32
        invariant
            i <= 32,
            bytes@.len() == 32,
            forall|j: int| 0 <= j < i ==> array@[j] == bytes@[j],
        decreases 32 - i,
    {
        array[i] = bytes[i];
        i += 1;
    }
    assert(array@ =~= bytes@);
    array
}

} // verus!
