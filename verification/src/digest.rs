//! Payload digests. The two chain families use different algorithms: the
//! native chain signs a SHA-256 digest, the EVM family a Keccak-256 digest.
//! Both are named functions of the input bytes alone; nothing else about
//! them is assumed.

use vstd::prelude::*;

use sha2::Digest;

verus! {

/// The SHA-256 digest of a byte string.
pub uninterp spec fn sha256_of(data: Seq<u8>) -> Seq<u8>;

/// The Keccak-256 digest of a byte string.
pub uninterp spec fn keccak256_of(data: Seq<u8>) -> Seq<u8>;

/// Hashes a payload using SHA-256 and returns the 32-byte digest.
///
/// Relies on `sha2::Sha256`: the digest is 32 bytes and depends on the
/// input bytes alone.
#[verifier::external_body]
pub fn hash_payload(payload: &[u8]) -> (r: [u8; 32])
    ensures
        r@ == sha256_of(payload@),
{
    let mut hasher = sha2::Sha256::new();
    hasher.update(payload);
    hasher.finalize().into()
}

/// Hashes a payload using Keccak-256 and returns the 32-byte digest.
///
/// Relies on `sha3::Keccak256`: the digest is 32 bytes and depends on the
/// input bytes alone.
#[verifier::external_body]
pub fn keccak256(payload: &[u8]) -> (r: [u8; 32])
    ensures
        r@ == keccak256_of(payload@),
{
    let mut hasher = sha3::Keccak256::new();
    hasher.update(payload);
    hasher.finalize().into()
}

} // verus!
