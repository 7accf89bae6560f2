//! Content digests for commitments.
//!
//! Every content-addressed reference in the consensus core — a leaf
//! commitment, a model signature — is a digest of a canonical byte encoding
//! built by verified code. The digest itself is computed by the `blake3`
//! crate; its value on a given byte string is named, not stated.

use vstd::prelude::*;

verus! {

/// The digest of a byte string, folded to 64 bits. The value depends on
/// the bytes alone: the same bytes give the same digest in every process
/// and on every machine.
pub uninterp spec fn digest64_of(bytes: Seq<u8>) -> u64;

/// Relies on blake3::hash: the digest is a function of the input bytes
/// alone. The first eight bytes of the 32-byte hash, read little-endian,
/// stand for the whole digest in this model.
#[verifier::external_body]
pub fn digest64(bytes: &Vec<u8>) -> (r: u64)
    ensures
        r == digest64_of(bytes@),
{
    let hash = blake3::hash(bytes.as_slice());
    let out = hash.as_bytes();
    let mut word = [0u8; 8];
    word.copy_from_slice(&out[0..8]);
    u64::from_le_bytes(word)
}

} // verus!
