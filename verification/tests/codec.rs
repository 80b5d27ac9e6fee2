use sha2::Digest;

use trial_engine::digest::{hash_payload, keccak256};
use trial_engine::dispatch::{create_sign_request_from_transaction, public_key_to_string,
    public_key_from_tagged_bytes};
use trial_engine::evm_abi::encode_function_call;
use trial_engine::evm_tokens::{parse_token, SerializableParam, SerializableParamType,
    SerializableToken, TokenValue};
use trial_engine::evm_tx::{AccessListEntry, EvmTransaction};
use trial_engine::hexformat::{convert_address_to_hex_string, parse_evm_address, EvmAddress};
use trial_engine::near_builder::{NearTransactionBuilder, TransactionBuilder, TxBuilder};
use trial_engine::near_types::{AccessKey, AccessKeyPermission, Action, AddKeyAction, BlockHash,
    ED25519PublicKey, FunctionCallAction, FunctionCallPermission, NearTransaction, PublicKey,
    TransferAction};

fn sample_transaction() -> NearTransaction {
    NearTransaction {
        signer_id: "alice.near".to_string(),
        signer_public_key: PublicKey::ED25519(ED25519PublicKey([7u8; 32])),
        nonce: 42,
        receiver_id: "token.near".to_string(),
        block_hash: BlockHash([9u8; 32]),
        actions: vec![
            Action::FunctionCall(Box::new(FunctionCallAction {
                method_name: "transfer".to_string(),
                args: vec![1, 2, 3, 4],
                gas: 30_000_000_000_000,
                deposit: 1,
            })),
            Action::Transfer(TransferAction { deposit: 55 }),
            Action::AddKey(Box::new(AddKeyAction {
                public_key: PublicKey::ED25519(ED25519PublicKey([3u8; 32])),
                access_key: AccessKey {
                    nonce: 0,
                    permission: AccessKeyPermission::FunctionCall(FunctionCallPermission {
                        allowance: Some(10),
                        receiver_id: "token.near".to_string(),
                        method_names: vec!["transfer".to_string(), "mint".to_string()],
                    }),
                },
            })),
        ],
    }
}

#[test]
fn native_encoding_round_trips() {
    let tx = sample_transaction();
    assert!(tx.check_wf());
    let bytes = tx.build_for_signing();
    let back = NearTransaction::from_bytes(&bytes).expect("canonical bytes must decode");
    assert_eq!(back.signer_id, tx.signer_id);
    assert_eq!(back.signer_public_key, tx.signer_public_key);
    assert_eq!(back.nonce, tx.nonce);
    assert_eq!(back.receiver_id, tx.receiver_id);
    assert_eq!(back.block_hash, tx.block_hash);
    assert_eq!(back.actions.len(), tx.actions.len());
    let bytes_again = back.build_for_signing();
    assert_eq!(bytes, bytes_again);
}

#[test]
fn native_encoding_layout_is_exact() {
    let tx = NearTransaction {
        signer_id: "a".to_string(),
        signer_public_key: PublicKey::ED25519(ED25519PublicKey([0u8; 32])),
        nonce: 1,
        receiver_id: "b".to_string(),
        block_hash: BlockHash([0u8; 32]),
        actions: vec![Action::Transfer(TransferAction { deposit: 2 })],
    };
    let bytes = tx.build_for_signing();
    let mut expected: Vec<u8> = Vec::new();
    expected.extend_from_slice(&1u32.to_le_bytes());
    expected.push(b'a');
    expected.push(0);
    expected.extend_from_slice(&[0u8; 32]);
    expected.extend_from_slice(&1u64.to_le_bytes());
    expected.extend_from_slice(&1u32.to_le_bytes());
    expected.push(b'b');
    expected.extend_from_slice(&[0u8; 32]);
    expected.extend_from_slice(&1u32.to_le_bytes());
    expected.push(3);
    expected.extend_from_slice(&2u128.to_le_bytes());
    assert_eq!(bytes, expected);
}

#[test]
fn truncated_or_garbled_bytes_do_not_decode() {
    let tx = sample_transaction();
    let bytes = tx.build_for_signing();
    let mut truncated = bytes.clone();
    truncated.pop();
    assert!(NearTransaction::from_bytes(&truncated).is_none());
    let mut extended = bytes.clone();
    extended.push(0);
    assert!(NearTransaction::from_bytes(&extended).is_none());
    let mut bad_tag = bytes.clone();
    let n = bad_tag.len();
    bad_tag[n - 17] = 250;
    assert!(NearTransaction::from_bytes(&bad_tag).is_none());
}

#[test]
fn native_digest_is_sha256_of_exact_bytes() {
    let tx = sample_transaction();
    let bytes = tx.build_for_signing();
    let digest = hash_payload(bytes.as_slice());
    let expected = sha2::Sha256::digest(bytes.as_slice());
    assert_eq!(digest.to_vec(), expected.to_vec());
}

#[test]
fn changing_the_nonce_changes_the_digest() {
    let tx = sample_transaction();
    let mut tx2 = sample_transaction();
    tx2.nonce = 43;
    let d1 = hash_payload(tx.build_for_signing().as_slice());
    let d2 = hash_payload(tx2.build_for_signing().as_slice());
    assert_ne!(d1.to_vec(), d2.to_vec());
}

#[test]
fn known_digest_vectors() {
    let sha = hash_payload(&[]);
    assert_eq!(
        sha.to_vec(),
        hex::decode("e3b0c44298fc1c149afbf4c8996fb92427ae41e4649b934ca495991b7852b855")
            .unwrap()
    );
    let kec = keccak256(&[]);
    assert_eq!(
        kec.to_vec(),
        hex::decode("c5d2460186f7233c927e7db2dcc703c0e500b653ca82273b7bfad8045d85a470")
            .unwrap()
    );
}

#[test]
fn transfer_selector_matches_the_standard() {
    let params = vec![
        SerializableParam { name: "to".to_string(), kind: SerializableParamType::Address },
        SerializableParam { name: "amount".to_string(), kind: SerializableParamType::Uint(256) },
    ];
    let args = vec![
        TokenValue::Address(EvmAddress([0x11u8; 20])),
        TokenValue::Uint(trial_engine::evm_tokens::Uint256({
            let mut a = [0u8; 32];
            a[31] = 2;
            a
        })),
    ];
    let data = encode_function_call(&"transfer".to_string(), &params, &args);
    assert_eq!(&data[0..4], hex::decode("a9059cbb").unwrap().as_slice());
    assert_eq!(data.len(), 4 + 32 + 32);
    let mut expected_head = vec![0u8; 12];
    expected_head.extend_from_slice(&[0x11u8; 20]);
    assert_eq!(&data[4..36], expected_head.as_slice());
    assert_eq!(data[67], 2);
}

#[test]
fn dynamic_arguments_use_head_and_tail() {
    let params = vec![
        SerializableParam { name: "s".to_string(), kind: SerializableParamType::String },
    ];
    let args = vec![TokenValue::String("abc".to_string())];
    let data = encode_function_call(&"log".to_string(), &params, &args);
    assert_eq!(data.len(), 4 + 32 + 32 + 32);
    assert_eq!(data[4 + 31], 32);
    assert_eq!(data[4 + 32 + 31], 3);
    assert_eq!(&data[4 + 64..4 + 67], b"abc");
}

#[test]
fn token_parsing_normalizes_text() {
    let t = parse_token(&SerializableToken::Uint("0xff".to_string())).unwrap();
    match t {
        TokenValue::Uint(u) => {
            assert_eq!(u.0[31], 0xff);
            assert_eq!(u.0[..31], [0u8; 31]);
        },
        _ => panic!("wrong token shape"),
    }
    let t = parse_token(&SerializableToken::Uint("300".to_string())).unwrap();
    match t {
        TokenValue::Uint(u) => {
            assert_eq!(u.0[31], 44);
            assert_eq!(u.0[30], 1);
        },
        _ => panic!("wrong token shape"),
    }
    let t = parse_token(&SerializableToken::Bytes("0xdead".to_string())).unwrap();
    match t {
        TokenValue::Bytes(b) => assert_eq!(b, vec![0xde, 0xad]),
        _ => panic!("wrong token shape"),
    }
    assert!(parse_token(&SerializableToken::Uint("12x".to_string())).is_err());
    assert!(parse_token(&SerializableToken::Address("0x1234".to_string())).is_err());
}

#[test]
fn parsing_and_encoding_the_same_call_twice_is_byte_identical() {
    let params = vec![
        SerializableParam { name: "to".to_string(), kind: SerializableParamType::Address },
        SerializableParam { name: "note".to_string(), kind: SerializableParamType::String },
    ];
    let wire = || vec![
        SerializableToken::Address("0xAbCdEf0123456789aBcDeF0123456789abcdef01".to_string()),
        SerializableToken::String("hello".to_string()),
    ];
    let args1: Vec<TokenValue> = wire().iter().map(|t| parse_token(t).unwrap()).collect();
    let args2: Vec<TokenValue> = wire().iter().map(|t| parse_token(t).unwrap()).collect();
    let d1 = encode_function_call(&"send".to_string(), &params, &args1);
    let d2 = encode_function_call(&"send".to_string(), &params, &args2);
    assert_eq!(d1, d2);
}

#[test]
fn decimal_tokens_cover_the_full_256_bit_range() {
    // Two to the 128th: the first value beyond the 128-bit range.
    let t = parse_token(&SerializableToken::Uint(
        "340282366920938463463374607431768211456".to_string(),
    ))
    .unwrap();
    match t {
        TokenValue::Uint(u) => {
            let mut expected = [0u8; 32];
            expected[15] = 1;
            assert_eq!(u.0, expected);
        },
        _ => panic!("wrong token shape"),
    }
    // The largest 256-bit value.
    let t = parse_token(&SerializableToken::Uint(
        "115792089237316195423570985008687907853269984665640564039457584007913129639935"
            .to_string(),
    ))
    .unwrap();
    match t {
        TokenValue::Uint(u) => assert_eq!(u.0, [0xffu8; 32]),
        _ => panic!("wrong token shape"),
    }
    // One past it is rejected.
    let r = parse_token(&SerializableToken::Uint(
        "115792089237316195423570985008687907853269984665640564039457584007913129639936"
            .to_string(),
    ));
    assert!(r.is_err());
}

#[test]
fn overlong_hex_tokens_with_leading_zeros_parse() {
    let mut text = "0x".to_string();
    for _ in 0..40 {
        text.push_str("00");
    }
    text.push_str("ff");
    let t = parse_token(&SerializableToken::Uint(text)).unwrap();
    match t {
        TokenValue::Uint(u) => {
            let mut expected = [0u8; 32];
            expected[31] = 0xff;
            assert_eq!(u.0, expected);
        },
        _ => panic!("wrong token shape"),
    }
    // 33 significant bytes do not fit.
    let mut big = "0x01".to_string();
    for _ in 0..32 {
        big.push_str("00");
    }
    assert!(parse_token(&SerializableToken::Uint(big)).is_err());
    // A bare prefix denotes nothing.
    assert!(parse_token(&SerializableToken::Uint("0x".to_string())).is_err());
}

#[test]
fn eip1559_bytes_start_with_the_type_byte() {
    let tx = EvmTransaction {
        chain_id: 1,
        nonce: 0,
        max_priority_fee_per_gas: 1,
        max_fee_per_gas: 100,
        gas_limit: 21_000,
        to: EvmAddress([0x22u8; 20]),
        value: 0,
        input: vec![],
        access_list: vec![AccessListEntry { address: EvmAddress([0x33u8; 20]),
            storage_keys: vec![[0x44u8; 32]] }],
    };
    let bytes = tx.build_for_signing();
    assert_eq!(bytes[0], 2);
    let again = tx.build_for_signing();
    assert_eq!(bytes, again);
    let mut tx2 = EvmTransaction { nonce: 1, ..tx };
    let d1 = keccak256(bytes.as_slice());
    let d2 = keccak256(tx2.build_for_signing().as_slice());
    assert_ne!(d1.to_vec(), d2.to_vec());
    tx2.nonce = 0;
    assert_eq!(tx2.build_for_signing(), bytes);
}

#[test]
fn minimal_eip1559_encoding_is_exact() {
    let tx = EvmTransaction {
        chain_id: 1,
        nonce: 0,
        max_priority_fee_per_gas: 0,
        max_fee_per_gas: 0,
        gas_limit: 0,
        to: EvmAddress([0xaau8; 20]),
        value: 0,
        input: vec![],
        access_list: vec![],
    };
    let bytes = tx.build_for_signing();
    let mut expected = vec![2u8];
    let payload: Vec<u8> = vec![
        0x01, 0x80, 0x80, 0x80, 0x80, 0x94, 0xaa, 0xaa, 0xaa, 0xaa, 0xaa, 0xaa, 0xaa, 0xaa,
        0xaa, 0xaa, 0xaa, 0xaa, 0xaa, 0xaa, 0xaa, 0xaa, 0xaa, 0xaa, 0xaa, 0xaa, 0x80, 0x80,
        0xc0,
    ];
    expected.push(0xc0 + payload.len() as u8);
    expected.extend_from_slice(&payload);
    assert_eq!(bytes, expected);
}

#[test]
fn addresses_normalize_and_format() {
    let a = parse_evm_address("0xAbCdEf0123456789aBcDeF0123456789abcdef01").unwrap();
    let b = parse_evm_address("abcdef0123456789abcdef0123456789abcdef01").unwrap();
    assert_eq!(a, b);
    assert_eq!(
        convert_address_to_hex_string(&a),
        "0xabcdef0123456789abcdef0123456789abcdef01".to_string()
    );
    assert!(parse_evm_address("0x123").is_err());
    assert!(parse_evm_address("0xzz").is_err());
}

#[test]
fn sign_request_carries_digest_and_key_text() {
    let mut tagged = vec![0u8];
    tagged.extend_from_slice(&[5u8; 32]);
    let pk = public_key_from_tagged_bytes(&tagged).unwrap();
    let req = create_sign_request_from_transaction([8u8; 32], &pk);
    assert_eq!(req.payload, [8u8; 32]);
    assert_eq!(req.key_version, 0);
    let expected = format!("ed25519:{}", bs58::encode(&[5u8; 32]).into_string());
    assert_eq!(req.path, expected);
    assert_eq!(public_key_to_string(&pk), expected);
    assert!(public_key_from_tagged_bytes(&vec![9u8; 33]).is_err());
}

#[test]
fn builder_assembles_exactly_when_complete() {
    let builder: NearTransactionBuilder = TransactionBuilder::new::<NearTransactionBuilder>();
    assert!(builder.build().is_none());
    let tx = TransactionBuilder::new::<NearTransactionBuilder>()
        .signer_id("alice.near".to_string())
        .signer_public_key(PublicKey::ED25519(ED25519PublicKey([7u8; 32])))
        .nonce(42)
        .receiver_id("token.near".to_string())
        .block_hash(BlockHash([9u8; 32]))
        .actions(vec![Action::Transfer(TransferAction { deposit: 55 })])
        .build()
        .unwrap();
    assert_eq!(tx.signer_id, "alice.near".to_string());
    assert_eq!(tx.nonce, 42);
    assert_eq!(tx.actions.len(), 1);
}
