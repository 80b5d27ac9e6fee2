//! Base58 text, used for key and signature strings and block anchors. The
//! encoding and its inverse are named functions of their input alone.

use vstd::prelude::*;

verus! {

/// The base58 text denoting a byte string.
pub uninterp spec fn base58_of(data: Seq<u8>) -> Seq<char>;

/// The bytes denoted by base58 text, or nothing when the text is not
/// base58.
pub uninterp spec fn base58_decoded(s: Seq<char>) -> Option<Seq<u8>>;

/// Relies on `bs58::encode`: the text depends on the input bytes alone.
#[verifier::external_body]
pub fn bs58_encode(data: &[u8]) -> (r: String)
    ensures
        r@ == base58_of(data@),
{
    bs58::encode(data).into_string()
}

/// Relies on `bs58::decode`: it succeeds exactly on base58 text, with a
/// result depending on the text alone.
#[verifier::external_body]
pub fn bs58_decode(s: &str) -> (r: Option<Vec<u8>>)
    ensures
        match r {
            Some(v) => base58_decoded(s@) == Some(v@),
            None => base58_decoded(s@) is None,
        },
{
    bs58::decode(s).into_vec().ok()
}

} // verus!
