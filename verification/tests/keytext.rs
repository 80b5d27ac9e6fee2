use trial_engine::keytext::{decode_base58_to_fixed_bytes, PublicKeyStrExt, SignatureStrExt};
use trial_engine::near_types::{PublicKey, Signature};

#[test]
fn key_text_round_trips_through_base58() {
    let bytes = [7u8; 32];
    let text = format!("ed25519:{}", bs58::encode(&bytes).into_string());
    let pk = text.as_str().to_public_key().unwrap();
    match pk {
        PublicKey::ED25519(k) => assert_eq!(k.0, bytes),
        _ => panic!("wrong curve"),
    }
    let raw = text.as_str().to_public_key_as_bytes().unwrap();
    assert_eq!(raw, bytes.to_vec());
    assert_eq!(text.as_str().try_ed25519_into_bytes().unwrap(), bytes);
}

#[test]
fn secp_key_text_parses() {
    let bytes = [9u8; 64];
    let text = format!("secp256k1:{}", bs58::encode(&bytes).into_string());
    let pk = text.as_str().to_public_key().unwrap();
    match pk {
        PublicKey::SECP256K1(k) => assert_eq!(k.0.to_vec(), bytes.to_vec()),
        _ => panic!("wrong curve"),
    }
    assert_eq!(
        text.as_str().try_secp256k1_into_bytes().unwrap().to_vec(),
        bytes.to_vec()
    );
}

#[test]
fn malformed_key_text_is_rejected() {
    assert!("ed25519:!!!".to_public_key().is_err());
    assert!("rsa:abc".to_public_key().is_err());
    let short = format!("ed25519:{}", bs58::encode(&[1u8; 16]).into_string());
    assert!(short.as_str().to_public_key().is_err());
}

#[test]
fn fixed_byte_decoding_checks_the_length() {
    let b32 = [3u8; 32];
    let text = bs58::encode(&b32).into_string();
    assert_eq!(text.as_str().to_fixed_32_bytes().unwrap(), b32);
    assert!(text.as_str().to_fixed_64_bytes().is_err());
    assert_eq!(text.as_str().to_block_hash().unwrap().0, b32);
    assert!(decode_base58_to_fixed_bytes::<4>(text.as_str()).is_err());
}

#[test]
fn signature_text_splits_components() {
    let mut sig = [0u8; 64];
    for (i, b) in sig.iter_mut().enumerate() {
        *b = i as u8;
    }
    let text = format!("ed25519:{}", bs58::encode(&sig).into_string());
    match text.as_str().to_signature().unwrap() {
        Signature::ED25519(s) => {
            assert_eq!(s.r.to_vec(), sig[..32].to_vec());
            assert_eq!(s.s.to_vec(), sig[32..].to_vec());
        },
        _ => panic!("wrong curve"),
    }
    let parts = text.as_str().to_ed25519_signature().unwrap();
    assert_eq!(parts.r[1], 1);
    assert!(text.as_str().to_secp256k1_signature().is_err());
    assert_eq!(text.as_str().to_signature_as_bytes().unwrap(), sig.to_vec());
}

#[test]
fn secp_signature_text_parses() {
    let sig = [0x5au8; 65];
    let text = format!("secp256k1:{}", bs58::encode(&sig).into_string());
    let parsed = text.as_str().to_secp256k1_signature().unwrap();
    assert_eq!(parsed.0.to_vec(), sig.to_vec());
    assert_eq!(
        text.as_str().try_secp256k1_sig_into_bytes().unwrap().to_vec(),
        sig.to_vec()
    );
    assert!(text.as_str().try_ed25519_sig_into_bytes().is_err());
}
