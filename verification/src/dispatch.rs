//! The signing dispatch boundary: the request handed to the external
//! threshold signer, and the key-text forms it uses.
//!
//! Only the digest, the derivation path and the key version ever cross this
//! boundary; method, contract and amounts are already baked into the digest.

use vstd::prelude::*;

use crate::base58::{base58_of, bs58_encode};
use crate::errors::TrialError;
use crate::near_types::{ED25519PublicKey, PublicKey, PublicKeyView, Secp256K1PublicKey};

verus! {

/// What is sent to the external signer: the 32-byte payload digest, the
/// derivation path, and the key version.
#[derive(Clone, Debug)]
pub struct SignRequest {
    pub payload: [u8; 32],
    pub path: String,
    pub key_version: u32,
}

/// A point of the signature the external signer returns.
#[derive(Clone, Debug)]
pub struct AffinePoint {
    pub affine_point: String,
}

/// A scalar of the signature the external signer returns.
#[derive(Clone, Debug)]
pub struct Scalar {
    pub scalar: String,
}

/// The signature as the external signer returns it, out of band.
#[derive(Clone, Debug)]
pub struct SignResult {
    pub big_r: AffinePoint,
    pub s: Scalar,
    pub recovery_id: u8,
}

/// A transaction together with the signature that arrived for it.
#[derive(Clone, Debug)]
pub struct FinalizedTxnData {
    pub signature: SignResult,
    pub txn: Vec<u8>,
}

/// The text form of a public key: its curve's prefix and the base58 text
/// of its bytes.
pub open spec fn pk_text(pk: PublicKeyView) -> Seq<char> {
    match pk {
        PublicKeyView::ED25519(b) => "ed25519:"@ + base58_of(b),
        PublicKeyView::SECP256K1(b) => "secp256k1:"@ + base58_of(b),
    }
}

/// Whether bytes are a curve-tagged key: one tag byte, then the curve's
/// number of raw key bytes.
pub open spec fn tagged_pk_ok(b: Seq<u8>) -> bool {
    (b.len() == 33 && b[0] == 0) || (b.len() == 65 && b[0] == 1)
}

/// The key that curve-tagged bytes carry.
pub open spec fn tagged_pk_view(b: Seq<u8>) -> PublicKeyView {
    if b.len() == 33 && b[0] == 0 {
        PublicKeyView::ED25519(b.skip(1))
    } else {
        PublicKeyView::SECP256K1(b.skip(1))
    }
}

/// Reads a curve-tagged key: one tag byte, then the curve's number of raw
/// key bytes. Anything else is rejected as `InvalidAddress`.
pub fn public_key_from_tagged_bytes(b: &Vec<u8>) -> (r: Result<PublicKey, TrialError>)
    ensures
        match r {
            Ok(pk) => tagged_pk_ok(b@) && pk@ == tagged_pk_view(b@),
            Err(e) => e == TrialError::InvalidAddress && !tagged_pk_ok(b@),
        },
{
    if b.len() == 33 && b[0] == 0 {
        let mut a = [0u8; 32];
        let mut i: usize = 0;
        while i < 32
            invariant
                i <= 32,
                b@.len() == 33,
                forall|j: int| 0 <= j < i ==> a@[j] == b@[j + 1],
            decreases 32 - i,
        {
            a[i] = b[i + 1];
            i += 1;
        }
        proof {
            assert(a@ =~= b@.skip(1));
        }
        Ok(PublicKey::ED25519(ED25519PublicKey(a)))
    } else if b.len() == 65 && b[0] == 1 {
        let mut a = [0u8; 64];
        let mut i: usize = 0;
        while i < 64
            invariant
                i <= 64,
                b@.len() == 65,
                forall|j: int| 0 <= j < i ==> a@[j] == b@[j + 1],
            decreases 64 - i,
        {
            a[i] = b[i + 1];
            i += 1;
        }
        proof {
            assert(a@ =~= b@.skip(1));
        }
        Ok(PublicKey::SECP256K1(Secp256K1PublicKey(a)))
    } else {
        Err(TrialError::InvalidAddress)
    }
}

/// Converts a public key to its text form: the curve's prefix, then the
/// base58 text of the key bytes.
pub fn public_key_to_string(public_key: &PublicKey) -> (r: String)
    ensures
        r@ == pk_text(public_key@),
{
    match public_key {
        PublicKey::ED25519(k) => {
            let mut out = "ed25519:".to_owned();
            let encoded = bs58_encode(k.0.as_slice());
            out.append(encoded.as_str());
            out
        },
        PublicKey::SECP256K1(k) => {
            let mut out = "secp256k1:".to_owned();
            let encoded = bs58_encode(k.0.as_slice());
            out.append(encoded.as_str());
            out
        },
    }
}

/// Builds the signing request for a payload digest: the digest itself, the
/// key's text form as the derivation path, and key version zero. No other
/// field of the action reaches the signer.
pub fn create_sign_request_from_transaction(hashed_payload: [u8; 32], path: &PublicKey) -> (r:
    SignRequest)
    ensures
        r.payload@ == hashed_payload@,
        r.path@ == pk_text(path@),
        r.key_version == 0,
{
    SignRequest { payload: hashed_payload, path: public_key_to_string(path), key_version: 0 }
}

} // verus!
