//! The Borsh forms of the field types that records and payloads are made of.
//!
//! Each form is stated as a spec function over byte sequences. The executable
//! encoders and decoders at the end of the file hand the work to the `borsh`
//! crate; their contracts are taken on trust from its source.

use vstd::bytes::*;
use vstd::prelude::*;

verus! {

/// The byte that stands for a flag: 1 for `true`, 0 for `false`.
pub open spec fn bool_byte(flag: bool) -> u8 {
    if flag {
        1u8
    } else {
        0u8
    }
}

/// The flag that a byte stands for, if any: only 0 and 1 are flags.
pub open spec fn bool_from_byte(byte: u8) -> Option<bool> {
    if byte == 0 {
        Some(false)
    } else if byte == 1 {
        Some(true)
    } else {
        None
    }
}

/// The Borsh form of a flag: the single byte that stands for it.
pub open spec fn borsh_bool(flag: bool) -> Seq<u8> {
    seq![bool_byte(flag)]
}

/// The flag whose Borsh form a buffer is, if it is one.
pub open spec fn borsh_bool_decoded(buf: Seq<u8>) -> Option<bool> {
    if buf.len() == 1 {
        bool_from_byte(buf[0])
    } else {
        None
    }
}

/// The Borsh form of a 64-bit integer: its eight bytes, lowest first.
pub open spec fn borsh_u64(value: u64) -> Seq<u8> {
    spec_u64_to_le_bytes(value)
}

/// The integer whose Borsh form a buffer is, if it is one.
pub open spec fn borsh_u64_decoded(buf: Seq<u8>) -> Option<u64> {
    if buf.len() == 8 {
        Some(spec_u64_from_le_bytes(buf))
    } else {
        None
    }
}

/// Whether a byte string is short enough to have a Borsh form: its length
/// has to fit the four-byte prefix.
pub open spec fn fits_length_prefix(payload: Seq<u8>) -> bool {
    payload.len() <= u32::MAX
}

/// The Borsh form of a byte string: its length as four bytes, lowest first,
/// and then the bytes themselves.
pub open spec fn borsh_bytes(payload: Seq<u8>) -> Seq<u8>
    recommends
        fits_length_prefix(payload),
{
    spec_u32_to_le_bytes(payload.len() as u32) + payload
}

/// The byte string whose Borsh form a buffer is, if it is one: the prefix
/// must give exactly the number of bytes that follow it.
pub open spec fn borsh_bytes_decoded(buf: Seq<u8>) -> Option<Seq<u8>> {
    if buf.len() >= 4 && spec_u32_from_le_bytes(buf.subrange(0, 4)) == buf.len() - 4 {
        Some(buf.subrange(4, buf.len() as int))
    } else {
        None
    }
}

/// Decoding the Borsh form of a flag gives the flag back.
pub proof fn lemma_borsh_bool_round_trip(flag: bool)
    ensures
        borsh_bool_decoded(borsh_bool(flag)) == Some(flag),
{
}

/// Decoding the Borsh form of an integer gives the integer back, and the
/// form is eight bytes long.
pub proof fn lemma_borsh_u64_round_trip(value: u64)
    ensures
        borsh_u64(value).len() == 8,
        borsh_u64_decoded(borsh_u64(value)) == Some(value),
{
    lemma_auto_spec_u64_to_from_le_bytes();
}

/// The only buffer that decodes to an integer is that integer's Borsh form.
pub proof fn lemma_borsh_u64_canonical(buf: Seq<u8>)
    requires
        buf.len() == 8,
    ensures
        borsh_u64(spec_u64_from_le_bytes(buf)) == buf,
{
    lemma_auto_spec_u64_to_from_le_bytes();
}

/// Decoding the Borsh form of a byte string gives the byte string back, and
/// the form is four bytes longer than the string.
pub proof fn lemma_borsh_bytes_round_trip(payload: Seq<u8>)
    requires
        fits_length_prefix(payload),
    ensures
        borsh_bytes(payload).len() == payload.len() + 4,
        borsh_bytes_decoded(borsh_bytes(payload)) == Some(payload),
{
    lemma_auto_spec_u32_to_from_le_bytes();
    let prefix = spec_u32_to_le_bytes(payload.len() as u32);
    let buf = borsh_bytes(payload);
    assert(prefix.len() == 4);
    assert(buf.subrange(0, 4) =~= prefix);
    assert(buf.subrange(4, buf.len() as int) =~= payload);
}

/// The only buffer that decodes to a byte string is that string's Borsh form.
pub proof fn lemma_borsh_bytes_canonical(buf: Seq<u8>)
    requires
        borsh_bytes_decoded(buf) is Some,
    ensures
        fits_length_prefix(borsh_bytes_decoded(buf)->0),
        borsh_bytes(borsh_bytes_decoded(buf)->0) == buf,
{
    lemma_auto_spec_u32_to_from_le_bytes();
    let payload = buf.subrange(4, buf.len() as int);
    let prefix = buf.subrange(0, 4);
    assert(spec_u32_to_le_bytes(spec_u32_from_le_bytes(prefix)) == prefix);
    assert(prefix + payload =~= buf);
}

/// Encodes a flag with `borsh::to_vec`.
///
/// Trusted: Borsh writes a `bool` as one byte, 1 or 0, and writing into a
/// fresh vector does not fail.
#[verifier::external_body]
pub(crate) fn encode_bool(flag: bool) -> (out: Option<Vec<u8>>)
    ensures
        out is Some,
        out matches Some(bytes) ==> bytes@ == borsh_bool(flag),
{
    borsh::to_vec(&flag).ok()
}

/// Decodes a flag with `borsh::from_slice`.
///
/// Trusted: Borsh reads one byte, takes 0 as `false` and 1 as `true`, refuses
/// every other value, and refuses a buffer with bytes left over or with none.
#[verifier::external_body]
pub(crate) fn decode_bool(buf: &[u8]) -> (out: Option<bool>)
    ensures
        out == borsh_bool_decoded(buf@),
{
    borsh::from_slice::<bool>(buf).ok()
}

/// Encodes a 64-bit integer with `borsh::to_vec`.
///
/// Trusted: Borsh writes a `u64` as its eight little-endian bytes, and
/// writing into a fresh vector does not fail.
#[verifier::external_body]
pub(crate) fn encode_u64(value: u64) -> (out: Option<Vec<u8>>)
    ensures
        out is Some,
        out matches Some(bytes) ==> bytes@ == borsh_u64(value),
{
    borsh::to_vec(&value).ok()
}

/// Decodes a 64-bit integer with `borsh::from_slice`.
///
/// Trusted: Borsh reads eight bytes as a little-endian `u64` and refuses a
/// buffer that is shorter or that has bytes left over.
#[verifier::external_body]
pub(crate) fn decode_u64(buf: &[u8]) -> (out: Option<u64>)
    ensures
        out == borsh_u64_decoded(buf@),
{
    borsh::from_slice::<u64>(buf).ok()
}

/// Encodes a byte string with `borsh::to_vec`.
///
/// Trusted: Borsh writes a slice of bytes as its length in four little-endian
/// bytes followed by the bytes, and fails exactly when the length does not
/// fit in 32 bits.
#[verifier::external_body]
pub(crate) fn encode_bytes(payload: &[u8]) -> (out: Option<Vec<u8>>)
    ensures
        out is Some <==> fits_length_prefix(payload@),
        out matches Some(bytes) ==> bytes@ == borsh_bytes(payload@),
{
    borsh::to_vec(payload).ok()
}

/// Decodes a byte string with `borsh::from_slice`.
///
/// Trusted: Borsh reads a four-byte little-endian length and then that many
/// bytes, and refuses a buffer that is cut short or that has bytes left over.
#[verifier::external_body]
pub(crate) fn decode_bytes(buf: &[u8]) -> (out: Option<Vec<u8>>)
    ensures
        match out {
            Some(payload) => borsh_bytes_decoded(buf@) == Some(payload@),
            None => borsh_bytes_decoded(buf@) is None,
        },
{
    borsh::from_slice::<Vec<u8>>(buf).ok()
}

} // verus!
