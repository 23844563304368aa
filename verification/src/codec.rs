//! The byte encodings of the values that are signed and stored.

use crate::types::VerificationReceipt;
use vstd::prelude::*;

verus! {

/// The `width` low bytes of `value`, least significant first.
pub open spec fn le_bytes(value: nat, width: nat) -> Seq<u8>
    decreases width,
{
    if width == 0 {
        Seq::empty()
    } else {
        seq![(value % 256) as u8] + le_bytes(value / 256, (width - 1) as nat)
    }
}

/// The byte that encodes a flag.
pub open spec fn bool_byte(flag: bool) -> u8 {
    if flag {
        1
    } else {
        0
    }
}

/// The encoding of a receipt: its fields in their order, the identity as it is,
/// the flag as one byte, each number with its least significant byte first.
pub open spec fn receipt_encoding(receipt: VerificationReceipt) -> Seq<u8> {
    receipt.program_hash@ + seq![bool_byte(receipt.passed)] + le_bytes(receipt.submit_at as nat, 8)
        + le_bytes(receipt.auth_index as nat, 4) + le_bytes(receipt.validators_len as nat, 4)
}

/// The prefix that the encoding of a byte string shorter than 64 bytes starts
/// with: its length, shifted left by two bits.
pub open spec fn short_length_prefix(len: nat) -> Seq<u8> {
    seq![(len * 4) as u8]
}

/// The tag of a transaction: a prefix, encoded as a byte string with its
/// length before it, then the two identities as they are.
pub open spec fn tag_encoding(prefix: Seq<u8>, first: Seq<u8>, second: Seq<u8>) -> Seq<u8> {
    short_length_prefix(prefix.len()) + prefix + first + second
}

/// Calls `parity_scale_codec::Encode::encode` on a `u32`. The codec writes a
/// `u32` as its four bytes, least significant first; that is taken on trust.
#[verifier::external_body]
pub(crate) fn encode_u32(value: u32) -> (bytes: Vec<u8>)
    ensures
        bytes@ == le_bytes(value as nat, 4),
{
    parity_scale_codec::Encode::encode(&value)
}

/// Calls `parity_scale_codec::Encode::encode` on the tuple of a receipt's
/// fields. The codec writes a tuple as its members one after the other, a byte
/// array as its bytes, a `bool` as one byte, 0 or 1, and an integer with its
/// least significant byte first; that is taken on trust.
#[verifier::external_body]
pub(crate) fn encode_receipt_fields(
    program_hash: &[u8; 32],
    passed: bool,
    submit_at: u64,
    auth_index: u32,
    validators_len: u32,
) -> (bytes: Vec<u8>)
    ensures
        bytes@ == program_hash@ + seq![bool_byte(passed)] + le_bytes(submit_at as nat, 8)
            + le_bytes(auth_index as nat, 4) + le_bytes(validators_len as nat, 4),
{
    parity_scale_codec::Encode::encode(
        &(program_hash, passed, submit_at, auth_index, validators_len),
    )
}

impl VerificationReceipt {
    /// The bytes that a voter signs.
    pub fn encode(&self) -> (bytes: Vec<u8>)
        ensures
            bytes@ == receipt_encoding(*self),
    {
        encode_receipt_fields(
            &self.program_hash,
            self.passed,
            self.submit_at,
            self.auth_index,
            self.validators_len,
        )
    }
}

} // verus!
