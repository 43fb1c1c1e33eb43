//! The two cryptographic digests the store is built on: a 64-bit BLAKE2b
//! digest for the four partial hashes that make up an entry's file name, and
//! a 256-bit BLAKE2s digest for the content hash of the raw input buffers.
//!
//! The digests themselves are outside calls; their results are named by the
//! uninterpreted functions below, and everything the library proves about
//! hashing speaks of those names.

use vstd::prelude::*;
use digest::Digest;

verus! {

/// What the 8-byte BLAKE2b digest returns for a given byte sequence.
pub uninterp spec fn blake2b64_of(bytes: Seq<u8>) -> Seq<u8>;

/// What the 32-byte BLAKE2s digest returns for a given byte sequence.
pub uninterp spec fn blake2s256_of(bytes: Seq<u8>) -> Seq<u8>;

/// Relies on blake2::Blake2b with an 8-byte output size: the digest is a
/// function of the input bytes alone, and is always 8 bytes long.
#[verifier::external_body]
pub(crate) fn blake2b64(data: &Vec<u8>) -> (r: Vec<u8>)
    ensures
        r@ == blake2b64_of(data@),
        r@.len() == 8,
{
    let mut hasher = blake2::Blake2b::<digest::consts::U8>::new();
    Digest::update(&mut hasher, data.as_slice());
    hasher.finalize().as_slice().to_vec()
}

/// Relies on blake2::Blake2s256: the digest is a function of the input bytes
/// alone, and is always 32 bytes long.
#[verifier::external_body]
pub(crate) fn blake2s256(data: &Vec<u8>) -> (r: Vec<u8>)
    ensures
        r@ == blake2s256_of(data@),
        r@.len() == 32,
{
    let mut hasher = blake2::Blake2s256::new();
    Digest::update(&mut hasher, data.as_slice());
    hasher.finalize().as_slice().to_vec()
}

} // verus!
