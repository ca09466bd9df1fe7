//! Addresses of the ledger's own accounts that instructions refer to.

use crate::pubkey::Pubkey;
use vstd::prelude::*;

verus! {

/// The bytes of the rent sysvar's address,
/// `SysvarRent111111111111111111111111111111111` in base 58.
pub open spec fn rent_id_bytes() -> Seq<u8> {
    seq![
        6u8, 167u8, 213u8, 23u8, 25u8, 44u8, 92u8, 81u8,
        33u8, 140u8, 201u8, 76u8, 61u8, 74u8, 241u8, 127u8,
        88u8, 218u8, 238u8, 8u8, 155u8, 161u8, 253u8, 68u8,
        227u8, 219u8, 217u8, 138u8, 0u8, 0u8, 0u8, 0u8,
    ]
}

/// The address of the rent sysvar, from `solana_program::sysvar::rent::id`.
///
/// Trusted: the function returns the constant address that
/// `solana_program` declares for the rent sysvar, and `to_bytes` gives its 32
/// bytes; they are the ones written out in [`rent_id_bytes`].
#[verifier::external_body]
pub(crate) fn rent_id() -> (key: Pubkey)
    ensures
        key@ == rent_id_bytes(),
{
    Pubkey(solana_program::sysvar::rent::id().to_bytes())
}

} // verus!
