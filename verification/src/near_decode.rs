//! Decoding the canonical binary layout of native transactions.
//!
//! `dec_transaction` is the layout's reading: it accepts exactly the bytes
//! `enc_transaction` produces and recovers the record they encode, which the
//! round-trip lemmas prove. The reader functions implement it.

use vstd::prelude::*;

use vstd::bytes::{spec_u128_from_le_bytes, spec_u32_from_le_bytes, spec_u64_from_le_bytes,
    lemma_auto_spec_u128_to_from_le_bytes, lemma_auto_spec_u32_to_from_le_bytes,
    lemma_auto_spec_u64_to_from_le_bytes, u128_from_le_bytes, u32_from_le_bytes,
    u64_from_le_bytes};
use vstd::slice::slice_subrange;
use vstd::utf8::{decode_utf8, encode_utf8, encode_utf8_decode_utf8, encode_utf8_valid_utf8,
    valid_utf8};

use crate::near_codec::{enc_access_key, enc_action, enc_action_list, enc_bytes, enc_fcp,
    enc_opt_u128, enc_permission, enc_pk, enc_str, enc_str_list, enc_transaction};
use crate::near_types::{AccessKey, AccessKeyPermission, AccessKeyView, Action, ActionView,
    AddKeyAction, CreateAccountAction, DeleteAccountAction, DeleteKeyAction, DeployContractAction,
    ED25519PublicKey, FcPermissionView, FunctionCallAction, FunctionCallPermission, BlockHash,
    NearTransaction, NearTransactionView, PermissionView, PublicKey, PublicKeyView,
    Secp256K1PublicKey, StakeAction, TransferAction, str_len_ok};

verus! {

/// One byte at `pos`.
pub open spec fn dec_u8(b: Seq<u8>, pos: int) -> Option<(u8, int)> {
    if 0 <= pos && pos + 1 <= b.len() {
        Some((b[pos], pos + 1))
    } else {
        None
    }
}

/// A 32-bit little-endian integer at `pos`.
pub open spec fn dec_u32(b: Seq<u8>, pos: int) -> Option<(u32, int)> {
    if 0 <= pos && pos + 4 <= b.len() {
        Some((spec_u32_from_le_bytes(b.subrange(pos, pos + 4)), pos + 4))
    } else {
        None
    }
}

/// A 64-bit little-endian integer at `pos`.
pub open spec fn dec_u64(b: Seq<u8>, pos: int) -> Option<(u64, int)> {
    if 0 <= pos && pos + 8 <= b.len() {
        Some((spec_u64_from_le_bytes(b.subrange(pos, pos + 8)), pos + 8))
    } else {
        None
    }
}

/// A 128-bit little-endian integer at `pos`.
pub open spec fn dec_u128(b: Seq<u8>, pos: int) -> Option<(u128, int)> {
    if 0 <= pos && pos + 16 <= b.len() {
        Some((spec_u128_from_le_bytes(b.subrange(pos, pos + 16)), pos + 16))
    } else {
        None
    }
}

/// `n` raw bytes at `pos`.
pub open spec fn dec_fixed(b: Seq<u8>, pos: int, n: int) -> Option<(Seq<u8>, int)> {
    if 0 <= pos && 0 <= n && pos + n <= b.len() {
        Some((b.subrange(pos, pos + n), pos + n))
    } else {
        None
    }
}

/// A length-prefixed byte string at `pos`.
pub open spec fn dec_bytes(b: Seq<u8>, pos: int) -> Option<(Seq<u8>, int)> {
    match dec_u32(b, pos) {
        Some((n, p)) => dec_fixed(b, p, n as int),
        None => None,
    }
}

/// A length-prefixed text field at `pos`; its bytes must be valid encoded
/// characters.
pub open spec fn dec_str(b: Seq<u8>, pos: int) -> Option<(Seq<char>, int)> {
    match dec_bytes(b, pos) {
        Some((bytes, p)) => if valid_utf8(bytes) {
            Some((decode_utf8(bytes), p))
        } else {
            None
        },
        None => None,
    }
}

/// A curve-tagged public key at `pos`.
pub open spec fn dec_pk(b: Seq<u8>, pos: int) -> Option<(PublicKeyView, int)> {
    match dec_u8(b, pos) {
        Some((tag, p)) => if tag == 0 {
            match dec_fixed(b, p, 32) {
                Some((bytes, p2)) => Some((PublicKeyView::ED25519(bytes), p2)),
                None => None,
            }
        } else if tag == 1 {
            match dec_fixed(b, p, 64) {
                Some((bytes, p2)) => Some((PublicKeyView::SECP256K1(bytes), p2)),
                None => None,
            }
        } else {
            None
        },
        None => None,
    }
}

/// A tagged optional amount at `pos`.
pub open spec fn dec_opt_u128(b: Seq<u8>, pos: int) -> Option<(Option<u128>, int)> {
    match dec_u8(b, pos) {
        Some((tag, p)) => if tag == 0 {
            Some((None, p))
        } else if tag == 1 {
            match dec_u128(b, p) {
                Some((x, p2)) => Some((Some(x), p2)),
                None => None,
            }
        } else {
            None
        },
        None => None,
    }
}

/// `n` text fields in order, starting at `pos`.
pub open spec fn dec_str_list(b: Seq<u8>, pos: int, n: nat) -> Option<(Seq<Seq<char>>, int)>
    decreases n,
{
    if n == 0 {
        Some((Seq::empty(), pos))
    } else {
        match dec_str(b, pos) {
            Some((s, p)) => match dec_str_list(b, p, (n - 1) as nat) {
                Some((rest, p2)) => Some((seq![s] + rest, p2)),
                None => None,
            },
            None => None,
        }
    }
}

/// A function-call permission at `pos`.
pub open spec fn dec_fcp(b: Seq<u8>, pos: int) -> Option<(FcPermissionView, int)> {
    match dec_opt_u128(b, pos) {
        Some((allowance, p)) => match dec_str(b, p) {
            Some((receiver_id, p2)) => match dec_u32(b, p2) {
                Some((n, p3)) => match dec_str_list(b, p3, n as nat) {
                    Some((method_names, p4)) => Some(
                        (FcPermissionView { allowance, receiver_id, method_names }, p4),
                    ),
                    None => None,
                },
                None => None,
            },
            None => None,
        },
        None => None,
    }
}

/// A tagged permission at `pos`.
pub open spec fn dec_permission(b: Seq<u8>, pos: int) -> Option<(PermissionView, int)> {
    match dec_u8(b, pos) {
        Some((tag, p)) => if tag == 0 {
            match dec_fcp(b, p) {
                Some((f, p2)) => Some((PermissionView::FunctionCall(f), p2)),
                None => None,
            }
        } else if tag == 1 {
            Some((PermissionView::FullAccess, p))
        } else {
            None
        },
        None => None,
    }
}

/// An access key at `pos`.
pub open spec fn dec_access_key(b: Seq<u8>, pos: int) -> Option<(AccessKeyView, int)> {
    match dec_u64(b, pos) {
        Some((nonce, p)) => match dec_permission(b, p) {
            Some((permission, p2)) => Some((AccessKeyView { nonce, permission }, p2)),
            None => None,
        },
        None => None,
    }
}

/// One tagged operation at `pos`.
pub open spec fn dec_action(b: Seq<u8>, pos: int) -> Option<(ActionView, int)> {
    match dec_u8(b, pos) {
        Some((tag, p)) => if tag == 0 {
            Some((ActionView::CreateAccount, p))
        } else if tag == 1 {
            match dec_bytes(b, p) {
                Some((code, p2)) => Some((ActionView::DeployContract(code), p2)),
                None => None,
            }
        } else if tag == 2 {
            match dec_str(b, p) {
                Some((method_name, p2)) => match dec_bytes(b, p2) {
                    Some((args, p3)) => match dec_u64(b, p3) {
                        Some((gas, p4)) => match dec_u128(b, p4) {
                            Some((deposit, p5)) => Some(
                                (ActionView::FunctionCall { method_name, args, gas, deposit }, p5),
                            ),
                            None => None,
                        },
                        None => None,
                    },
                    None => None,
                },
                None => None,
            }
        } else if tag == 3 {
            match dec_u128(b, p) {
                Some((deposit, p2)) => Some((ActionView::Transfer(deposit), p2)),
                None => None,
            }
        } else if tag == 4 {
            match dec_u128(b, p) {
                Some((stake, p2)) => match dec_pk(b, p2) {
                    Some((public_key, p3)) => Some((ActionView::Stake { stake, public_key }, p3)),
                    None => None,
                },
                None => None,
            }
        } else if tag == 5 {
            match dec_pk(b, p) {
                Some((public_key, p2)) => match dec_access_key(b, p2) {
                    Some((access_key, p3)) => Some(
                        (ActionView::AddKey { public_key, access_key }, p3),
                    ),
                    None => None,
                },
                None => None,
            }
        } else if tag == 6 {
            match dec_pk(b, p) {
                Some((pk, p2)) => Some((ActionView::DeleteKey(pk), p2)),
                None => None,
            }
        } else if tag == 7 {
            match dec_str(b, p) {
                Some((beneficiary, p2)) => Some((ActionView::DeleteAccount(beneficiary), p2)),
                None => None,
            }
        } else {
            None
        },
        None => None,
    }
}

/// `n` operations in order, starting at `pos`.
pub open spec fn dec_action_list(b: Seq<u8>, pos: int, n: nat) -> Option<(Seq<ActionView>, int)>
    decreases n,
{
    if n == 0 {
        Some((Seq::empty(), pos))
    } else {
        match dec_action(b, pos) {
            Some((a, p)) => match dec_action_list(b, p, (n - 1) as nat) {
                Some((rest, p2)) => Some((seq![a] + rest, p2)),
                None => None,
            },
            None => None,
        }
    }
}

/// The whole unsigned transaction: its fields in order, consuming every
/// byte.
pub open spec fn dec_transaction(b: Seq<u8>) -> Option<NearTransactionView> {
    match dec_str(b, 0) {
        Some((signer_id, p)) => match dec_pk(b, p) {
            Some((signer_public_key, p2)) => match dec_u64(b, p2) {
                Some((nonce, p3)) => match dec_str(b, p3) {
                    Some((receiver_id, p4)) => match dec_fixed(b, p4, 32) {
                        Some((block_hash, p5)) => match dec_u32(b, p5) {
                            Some((n, p6)) => match dec_action_list(b, p6, n as nat) {
                                Some((actions, p7)) => if p7 == b.len() {
                                    Some(
                                        NearTransactionView {
                                            signer_id,
                                            signer_public_key,
                                            nonce,
                                            receiver_id,
                                            block_hash,
                                            actions,
                                        },
                                    )
                                } else {
                                    None
                                },
                                None => None,
                            },
                            None => None,
                        },
                        None => None,
                    },
                    None => None,
                },
                None => None,
            },
            None => None,
        },
        None => None,
    }
}

/// Splits knowledge of a two-part subrange into its parts.
pub proof fn lemma_split2(b: Seq<u8>, pos: int, e1: Seq<u8>, e2: Seq<u8>)
    requires
        0 <= pos,
        pos + e1.len() + e2.len() <= b.len(),
        b.subrange(pos, pos + e1.len() + e2.len()) == e1 + e2,
    ensures
        b.subrange(pos, pos + e1.len()) == e1,
        b.subrange(pos + e1.len(), pos + e1.len() + e2.len()) == e2,
{
    let whole = b.subrange(pos, pos + e1.len() + e2.len());
    assert(b.subrange(pos, pos + e1.len()) =~= e1) by {
        assert forall|i: int| 0 <= i < e1.len() implies b.subrange(pos, pos + e1.len())[i] == e1[i]
        by {
            assert(whole[i] == (e1 + e2)[i]);
        }
    }
    assert(b.subrange(pos + e1.len(), pos + e1.len() + e2.len()) =~= e2) by {
        assert forall|i: int| 0 <= i < e2.len() implies b.subrange(
            pos + e1.len(),
            pos + e1.len() + e2.len(),
        )[i] == e2[i] by {
            assert(whole[e1.len() + i] == (e1 + e2)[e1.len() + i]);
        }
    }
}

/// Reading a 32-bit integer where its encoding lies finds it.
pub proof fn lemma_dec_enc_u32(b: Seq<u8>, pos: int, x: u32)
    requires
        0 <= pos,
        pos + 4 <= b.len(),
        b.subrange(pos, pos + 4) == vstd::bytes::spec_u32_to_le_bytes(x),
    ensures
        dec_u32(b, pos) == Some((x, pos + 4)),
{
    lemma_auto_spec_u32_to_from_le_bytes();
    assert(vstd::bytes::spec_u32_to_le_bytes(x).len() == 4);
}

/// Reading a 64-bit integer where its encoding lies finds it.
pub proof fn lemma_dec_enc_u64(b: Seq<u8>, pos: int, x: u64)
    requires
        0 <= pos,
        pos + 8 <= b.len(),
        b.subrange(pos, pos + 8) == vstd::bytes::spec_u64_to_le_bytes(x),
    ensures
        dec_u64(b, pos) == Some((x, pos + 8)),
{
    lemma_auto_spec_u64_to_from_le_bytes();
}

/// Reading a 128-bit integer where its encoding lies finds it.
pub proof fn lemma_dec_enc_u128(b: Seq<u8>, pos: int, x: u128)
    requires
        0 <= pos,
        pos + 16 <= b.len(),
        b.subrange(pos, pos + 16) == vstd::bytes::spec_u128_to_le_bytes(x),
    ensures
        dec_u128(b, pos) == Some((x, pos + 16)),
{
    lemma_auto_spec_u128_to_from_le_bytes();
    assert(vstd::bytes::spec_u128_to_le_bytes(x).len() == 16);
}

/// Reading a byte string where its encoding lies finds it.
pub proof fn lemma_dec_enc_bytes(b: Seq<u8>, pos: int, data: Seq<u8>)
    requires
        0 <= pos,
        data.len() <= u32::MAX,
        pos + enc_bytes(data).len() <= b.len(),
        b.subrange(pos, pos + enc_bytes(data).len()) == enc_bytes(data),
    ensures
        dec_bytes(b, pos) == Some((data, pos + enc_bytes(data).len())),
{
    lemma_auto_spec_u32_to_from_le_bytes();
    let lenb = vstd::bytes::spec_u32_to_le_bytes(data.len() as u32);
    lemma_split2(b, pos, lenb, data);
    lemma_dec_enc_u32(b, pos, data.len() as u32);
}

/// Reading a text field where its encoding lies finds it.
pub proof fn lemma_dec_enc_str(b: Seq<u8>, pos: int, s: Seq<char>)
    requires
        0 <= pos,
        str_len_ok(s),
        pos + enc_str(s).len() <= b.len(),
        b.subrange(pos, pos + enc_str(s).len()) == enc_str(s),
    ensures
        dec_str(b, pos) == Some((s, pos + enc_str(s).len())),
{
    lemma_dec_enc_bytes(b, pos, encode_utf8(s));
    encode_utf8_valid_utf8(s);
    encode_utf8_decode_utf8(s);
}

/// Reading a public key where its encoding lies finds it.
pub proof fn lemma_dec_enc_pk(b: Seq<u8>, pos: int, pk: PublicKeyView)
    requires
        0 <= pos,
        pk.wf(),
        pos + enc_pk(pk).len() <= b.len(),
        b.subrange(pos, pos + enc_pk(pk).len()) == enc_pk(pk),
    ensures
        dec_pk(b, pos) == Some((pk, pos + enc_pk(pk).len())),
{
    match pk {
        PublicKeyView::ED25519(bytes) => {
            lemma_split2(b, pos, seq![0u8], bytes);
            assert(b[pos] == seq![0u8][0]);
        },
        PublicKeyView::SECP256K1(bytes) => {
            lemma_split2(b, pos, seq![1u8], bytes);
            assert(b[pos] == seq![1u8][0]);
        },
    }
}

/// Reading an optional amount where its encoding lies finds it.
pub proof fn lemma_dec_enc_opt_u128(b: Seq<u8>, pos: int, o: Option<u128>)
    requires
        0 <= pos,
        pos + enc_opt_u128(o).len() <= b.len(),
        b.subrange(pos, pos + enc_opt_u128(o).len()) == enc_opt_u128(o),
    ensures
        dec_opt_u128(b, pos) == Some((o, pos + enc_opt_u128(o).len())),
{
    match o {
        None => {
            assert(b[pos] == enc_opt_u128(o)[0]);
        },
        Some(x) => {
            lemma_auto_spec_u128_to_from_le_bytes();
            assert(vstd::bytes::spec_u128_to_le_bytes(x).len() == 16);
            lemma_split2(b, pos, seq![1u8], vstd::bytes::spec_u128_to_le_bytes(x));
            assert(b[pos] == seq![1u8][0]);
            lemma_dec_enc_u128(b, pos + 1, x);
        },
    }
}

/// Reading a text list where its encoding lies finds it.
pub proof fn lemma_dec_enc_str_list(b: Seq<u8>, pos: int, v: Seq<Seq<char>>)
    requires
        0 <= pos,
        forall|i: int| 0 <= i < v.len() ==> str_len_ok(#[trigger] v[i]),
        pos + enc_str_list(v).len() <= b.len(),
        b.subrange(pos, pos + enc_str_list(v).len()) == enc_str_list(v),
    ensures
        dec_str_list(b, pos, v.len()) == Some((v, pos + enc_str_list(v).len())),
    decreases v.len(),
{
    if v.len() == 0 {
        assert(v =~= Seq::<Seq<char>>::empty());
    } else {
        lemma_split2(b, pos, enc_str(v[0]), enc_str_list(v.drop_first()));
        lemma_dec_enc_str(b, pos, v[0]);
        assert forall|i: int| 0 <= i < v.drop_first().len() implies str_len_ok(
            #[trigger] v.drop_first()[i],
        ) by {
            assert(v.drop_first()[i] == v[i + 1]);
        }
        lemma_dec_enc_str_list(b, pos + enc_str(v[0]).len() as int, v.drop_first());
        assert(seq![v[0]] + v.drop_first() =~= v);
    }
}

/// Reading an access key where its encoding lies finds it.
pub proof fn lemma_dec_enc_access_key(b: Seq<u8>, pos: int, ak: AccessKeyView)
    requires
        0 <= pos,
        ak.wf(),
        pos + enc_access_key(ak).len() <= b.len(),
        b.subrange(pos, pos + enc_access_key(ak).len()) == enc_access_key(ak),
    ensures
        dec_access_key(b, pos) == Some((ak, pos + enc_access_key(ak).len())),
{
    lemma_auto_spec_u64_to_from_le_bytes();
    lemma_split2(b, pos, vstd::bytes::spec_u64_to_le_bytes(ak.nonce), enc_permission(
        ak.permission,
    ));
    lemma_dec_enc_u64(b, pos, ak.nonce);
    let p = pos + 8;
    match ak.permission {
        PermissionView::FunctionCall(f) => {
            lemma_auto_spec_u32_to_from_le_bytes();
            assert(vstd::bytes::spec_u32_to_le_bytes(f.method_names.len() as u32).len() == 4);
            lemma_split2(b, p, seq![0u8], enc_fcp(f));
            assert(b[p] == seq![0u8][0]);
            let q = p + 1;
            assert(enc_fcp(f) =~= enc_opt_u128(f.allowance) + (enc_str(f.receiver_id)
                + vstd::bytes::spec_u32_to_le_bytes(f.method_names.len() as u32) + enc_str_list(
                f.method_names,
            )));
            lemma_split2(
                b,
                q,
                enc_opt_u128(f.allowance),
                enc_str(f.receiver_id) + vstd::bytes::spec_u32_to_le_bytes(
                    f.method_names.len() as u32,
                ) + enc_str_list(f.method_names),
            );
            lemma_dec_enc_opt_u128(b, q, f.allowance);
            let q2 = q + enc_opt_u128(f.allowance).len() as int;
            assert(enc_str(f.receiver_id) + vstd::bytes::spec_u32_to_le_bytes(
                f.method_names.len() as u32,
            ) + enc_str_list(f.method_names) =~= enc_str(f.receiver_id) + (
            vstd::bytes::spec_u32_to_le_bytes(f.method_names.len() as u32) + enc_str_list(
                f.method_names,
            )));
            lemma_split2(
                b,
                q2,
                enc_str(f.receiver_id),
                vstd::bytes::spec_u32_to_le_bytes(f.method_names.len() as u32) + enc_str_list(
                    f.method_names,
                ),
            );
            lemma_dec_enc_str(b, q2, f.receiver_id);
            let q3 = q2 + enc_str(f.receiver_id).len() as int;
            lemma_split2(
                b,
                q3,
                vstd::bytes::spec_u32_to_le_bytes(f.method_names.len() as u32),
                enc_str_list(f.method_names),
            );
            lemma_dec_enc_u32(b, q3, f.method_names.len() as u32);
            lemma_dec_enc_str_list(b, q3 + 4, f.method_names);
        },
        PermissionView::FullAccess => {
            assert(b[p] == enc_permission(ak.permission)[0]);
        },
    }
}

/// Reading an operation where its encoding lies finds it.
pub proof fn lemma_dec_enc_action(b: Seq<u8>, pos: int, a: ActionView)
    requires
        0 <= pos,
        a.wf(),
        pos + enc_action(a).len() <= b.len(),
        b.subrange(pos, pos + enc_action(a).len()) == enc_action(a),
    ensures
        dec_action(b, pos) == Some((a, pos + enc_action(a).len())),
{
    match a {
        ActionView::CreateAccount => {
            assert(b[pos] == enc_action(a)[0]);
        },
        ActionView::DeployContract(code) => {
            lemma_split2(b, pos, seq![1u8], enc_bytes(code));
            assert(b[pos] == seq![1u8][0]);
            lemma_dec_enc_bytes(b, pos + 1, code);
        },
        ActionView::FunctionCall { method_name, args, gas, deposit } => {
            assert(enc_action(a) =~= seq![2u8] + (enc_str(method_name) + enc_bytes(args)
                + vstd::bytes::spec_u64_to_le_bytes(gas) + vstd::bytes::spec_u128_to_le_bytes(
                deposit,
            )));
            lemma_split2(
                b,
                pos,
                seq![2u8],
                enc_str(method_name) + enc_bytes(args) + vstd::bytes::spec_u64_to_le_bytes(gas)
                    + vstd::bytes::spec_u128_to_le_bytes(deposit),
            );
            assert(b[pos] == seq![2u8][0]);
            let p = pos + 1;
            assert(enc_str(method_name) + enc_bytes(args) + vstd::bytes::spec_u64_to_le_bytes(gas)
                + vstd::bytes::spec_u128_to_le_bytes(deposit) =~= enc_str(method_name) + (
            enc_bytes(args) + vstd::bytes::spec_u64_to_le_bytes(gas)
                + vstd::bytes::spec_u128_to_le_bytes(deposit)));
            lemma_split2(
                b,
                p,
                enc_str(method_name),
                enc_bytes(args) + vstd::bytes::spec_u64_to_le_bytes(gas)
                    + vstd::bytes::spec_u128_to_le_bytes(deposit),
            );
            lemma_dec_enc_str(b, p, method_name);
            let p2 = p + enc_str(method_name).len() as int;
            assert(enc_bytes(args) + vstd::bytes::spec_u64_to_le_bytes(gas)
                + vstd::bytes::spec_u128_to_le_bytes(deposit) =~= enc_bytes(args) + (
            vstd::bytes::spec_u64_to_le_bytes(gas) + vstd::bytes::spec_u128_to_le_bytes(deposit)));
            lemma_split2(
                b,
                p2,
                enc_bytes(args),
                vstd::bytes::spec_u64_to_le_bytes(gas) + vstd::bytes::spec_u128_to_le_bytes(
                    deposit,
                ),
            );
            lemma_dec_enc_bytes(b, p2, args);
            let p3 = p2 + enc_bytes(args).len() as int;
            lemma_split2(
                b,
                p3,
                vstd::bytes::spec_u64_to_le_bytes(gas),
                vstd::bytes::spec_u128_to_le_bytes(deposit),
            );
            lemma_auto_spec_u64_to_from_le_bytes();
            lemma_auto_spec_u128_to_from_le_bytes();
            lemma_dec_enc_u64(b, p3, gas);
            lemma_dec_enc_u128(b, p3 + 8, deposit);
        },
        ActionView::Transfer(deposit) => {
            lemma_split2(b, pos, seq![3u8], vstd::bytes::spec_u128_to_le_bytes(deposit));
            assert(b[pos] == seq![3u8][0]);
            lemma_auto_spec_u128_to_from_le_bytes();
            lemma_dec_enc_u128(b, pos + 1, deposit);
        },
        ActionView::Stake { stake, public_key } => {
            assert(enc_action(a) =~= seq![4u8] + (vstd::bytes::spec_u128_to_le_bytes(stake)
                + enc_pk(public_key)));
            lemma_split2(
                b,
                pos,
                seq![4u8],
                vstd::bytes::spec_u128_to_le_bytes(stake) + enc_pk(public_key),
            );
            assert(b[pos] == seq![4u8][0]);
            let p = pos + 1;
            lemma_auto_spec_u128_to_from_le_bytes();
            lemma_split2(b, p, vstd::bytes::spec_u128_to_le_bytes(stake), enc_pk(public_key));
            lemma_dec_enc_u128(b, p, stake);
            lemma_dec_enc_pk(b, p + 16, public_key);
        },
        ActionView::AddKey { public_key, access_key } => {
            assert(enc_action(a) =~= seq![5u8] + (enc_pk(public_key) + enc_access_key(
                access_key,
            )));
            lemma_split2(b, pos, seq![5u8], enc_pk(public_key) + enc_access_key(access_key));
            assert(b[pos] == seq![5u8][0]);
            let p = pos + 1;
            lemma_split2(b, p, enc_pk(public_key), enc_access_key(access_key));
            lemma_dec_enc_pk(b, p, public_key);
            lemma_dec_enc_access_key(b, p + enc_pk(public_key).len() as int, access_key);
        },
        ActionView::DeleteKey(pk) => {
            lemma_split2(b, pos, seq![6u8], enc_pk(pk));
            assert(b[pos] == seq![6u8][0]);
            lemma_dec_enc_pk(b, pos + 1, pk);
        },
        ActionView::DeleteAccount(beneficiary) => {
            lemma_split2(b, pos, seq![7u8], enc_str(beneficiary));
            assert(b[pos] == seq![7u8][0]);
            lemma_dec_enc_str(b, pos + 1, beneficiary);
        },
    }
}

/// Reading an operation list where its encoding lies finds it.
pub proof fn lemma_dec_enc_action_list(b: Seq<u8>, pos: int, v: Seq<ActionView>)
    requires
        0 <= pos,
        forall|i: int| 0 <= i < v.len() ==> (#[trigger] v[i]).wf(),
        pos + enc_action_list(v).len() <= b.len(),
        b.subrange(pos, pos + enc_action_list(v).len()) == enc_action_list(v),
    ensures
        dec_action_list(b, pos, v.len()) == Some((v, pos + enc_action_list(v).len())),
    decreases v.len(),
{
    if v.len() == 0 {
        assert(v =~= Seq::<ActionView>::empty());
    } else {
        lemma_split2(b, pos, enc_action(v[0]), enc_action_list(v.drop_first()));
        lemma_dec_enc_action(b, pos, v[0]);
        assert forall|i: int| 0 <= i < v.drop_first().len() implies (
        #[trigger] v.drop_first()[i]).wf() by {
            assert(v.drop_first()[i] == v[i + 1]);
        }
        lemma_dec_enc_action_list(b, pos + enc_action(v[0]).len() as int, v.drop_first());
        assert(seq![v[0]] + v.drop_first() =~= v);
    }
}

/// The round trip: the canonical bytes of a well-formed transaction decode
/// back to exactly that transaction.
#[verifier::rlimit(60)]
pub proof fn lemma_transaction_round_trip(t: NearTransactionView)
    requires
        t.wf(),
    ensures
        dec_transaction(enc_transaction(t)) == Some(t),
{
    let b = enc_transaction(t);
    let e1 = enc_str(t.signer_id);
    let e2 = enc_pk(t.signer_public_key);
    let e3 = vstd::bytes::spec_u64_to_le_bytes(t.nonce);
    let e4 = enc_str(t.receiver_id);
    let e5 = t.block_hash;
    let e6 = vstd::bytes::spec_u32_to_le_bytes(t.actions.len() as u32);
    let e7 = enc_action_list(t.actions);
    lemma_auto_spec_u32_to_from_le_bytes();
    lemma_auto_spec_u64_to_from_le_bytes();
    assert(b =~= e1 + (e2 + (e3 + (e4 + (e5 + (e6 + e7))))));
    assert(b.subrange(0, b.len() as int) =~= b);
    lemma_split2(b, 0, e1, e2 + (e3 + (e4 + (e5 + (e6 + e7)))));
    lemma_dec_enc_str(b, 0, t.signer_id);
    let p1 = e1.len() as int;
    lemma_split2(b, p1, e2, e3 + (e4 + (e5 + (e6 + e7))));
    lemma_dec_enc_pk(b, p1, t.signer_public_key);
    let p2 = p1 + e2.len() as int;
    lemma_split2(b, p2, e3, e4 + (e5 + (e6 + e7)));
    lemma_dec_enc_u64(b, p2, t.nonce);
    let p3 = p2 + 8;
    lemma_split2(b, p3, e4, e5 + (e6 + e7));
    lemma_dec_enc_str(b, p3, t.receiver_id);
    let p4 = p3 + e4.len() as int;
    lemma_split2(b, p4, e5, e6 + e7);
    let p5 = p4 + 32;
    lemma_split2(b, p5, e6, e7);
    lemma_dec_enc_u32(b, p5, t.actions.len() as u32);
    let p6 = p5 + 4;
    lemma_dec_enc_action_list(b, p6, t.actions);
}

/// Prefixing already-read text fields onto a pending read.
pub open spec fn prepend_strs(acc: Seq<Seq<char>>, r: Option<(Seq<Seq<char>>, int)>) -> Option<
    (Seq<Seq<char>>, int),
> {
    match r {
        Some((v, p)) => Some((acc + v, p)),
        None => None,
    }
}

/// Prefixing already-read operations onto a pending read.
pub open spec fn prepend_actions(acc: Seq<ActionView>, r: Option<(Seq<ActionView>, int)>) -> Option<
    (Seq<ActionView>, int),
> {
    match r {
        Some((v, p)) => Some((acc + v, p)),
        None => None,
    }
}

/// Relies on `String::from_utf8` (std): it succeeds exactly on valid UTF-8
/// input and decodes it to the characters the bytes encode.
#[verifier::external_body]
fn string_from_utf8(v: Vec<u8>) -> (r: Option<String>)
    ensures
        match r {
            Some(s) => valid_utf8(v@) && s@ == decode_utf8(v@),
            None => !valid_utf8(v@),
        },
{
    String::from_utf8(v).ok()
}

/// Reads one byte.
fn read_u8(b: &Vec<u8>, pos: usize) -> (r: Option<(u8, usize)>)
    ensures
        match r {
            Some((x, p)) => dec_u8(b@, pos as int) == Some((x, p as int)) && p <= b@.len(),
            None => dec_u8(b@, pos as int) is None,
        },
{
    if pos < b.len() {
        Some((b[pos], pos + 1))
    } else {
        None
    }
}

/// Reads a 32-bit little-endian integer.
fn read_u32(b: &Vec<u8>, pos: usize) -> (r: Option<(u32, usize)>)
    ensures
        match r {
            Some((x, p)) => dec_u32(b@, pos as int) == Some((x, p as int)) && p <= b@.len(),
            None => dec_u32(b@, pos as int) is None,
        },
{
    if pos <= b.len() && b.len() - pos >= 4 {
        let x = u32_from_le_bytes(slice_subrange(b.as_slice(), pos, pos + 4));
        Some((x, pos + 4))
    } else {
        None
    }
}

/// Reads a 64-bit little-endian integer.
fn read_u64(b: &Vec<u8>, pos: usize) -> (r: Option<(u64, usize)>)
    ensures
        match r {
            Some((x, p)) => dec_u64(b@, pos as int) == Some((x, p as int)) && p <= b@.len(),
            None => dec_u64(b@, pos as int) is None,
        },
{
    if pos <= b.len() && b.len() - pos >= 8 {
        let x = u64_from_le_bytes(slice_subrange(b.as_slice(), pos, pos + 8));
        Some((x, pos + 8))
    } else {
        None
    }
}

/// Reads a 128-bit little-endian integer.
fn read_u128(b: &Vec<u8>, pos: usize) -> (r: Option<(u128, usize)>)
    ensures
        match r {
            Some((x, p)) => dec_u128(b@, pos as int) == Some((x, p as int)) && p <= b@.len(),
            None => dec_u128(b@, pos as int) is None,
        },
{
    if pos <= b.len() && b.len() - pos >= 16 {
        let x = u128_from_le_bytes(slice_subrange(b.as_slice(), pos, pos + 16));
        Some((x, pos + 16))
    } else {
        None
    }
}

/// Reads `N` raw bytes into an array.
fn read_array<const N: usize>(b: &Vec<u8>, pos: usize) -> (r: Option<([u8; N], usize)>)
    ensures
        match r {
            Some((a, p)) => dec_fixed(b@, pos as int, N as int) == Some((a@, p as int)) && p
                <= b@.len(),
            None => dec_fixed(b@, pos as int, N as int) is None,
        },
{
    if pos <= b.len() && b.len() - pos >= N {
        let mut a = [0u8; N];
        let mut i: usize = 0;
        while i < N
            invariant
                i <= N,
                pos + N <= b@.len(),
                b@.len() <= usize::MAX,
                a@.len() == N,
                forall|j: int| 0 <= j < i ==> a@[j] == b@[pos + j],
            decreases N - i,
        {
            a[i] = b[pos + i];
            i += 1;
        }
        proof {
            assert(a@ =~= b@.subrange(pos as int, pos + N as int));
        }
        Some((a, pos + N))
    } else {
        None
    }
}

/// Reads a length-prefixed byte string.
fn read_bytes(b: &Vec<u8>, pos: usize) -> (r: Option<(Vec<u8>, usize)>)
    ensures
        match r {
            Some((v, p)) => dec_bytes(b@, pos as int) == Some((v@, p as int)) && p <= b@.len(),
            None => dec_bytes(b@, pos as int) is None,
        },
{
    match read_u32(b, pos) {
        Some((n, p)) => {
            let n = n as usize;
            if n <= b.len() - p {
                let v = vstd::slice::slice_to_vec(slice_subrange(b.as_slice(), p, p + n));
                Some((v, p + n))
            } else {
                None
            }
        },
        None => None,
    }
}

/// Reads a length-prefixed text field.
fn read_str(b: &Vec<u8>, pos: usize) -> (r: Option<(String, usize)>)
    ensures
        match r {
            Some((s, p)) => dec_str(b@, pos as int) == Some((s@, p as int)) && p <= b@.len(),
            None => dec_str(b@, pos as int) is None,
        },
{
    match read_bytes(b, pos) {
        Some((v, p)) => match string_from_utf8(v) {
            Some(s) => Some((s, p)),
            None => None,
        },
        None => None,
    }
}

/// Reads a curve-tagged public key.
fn read_pk(b: &Vec<u8>, pos: usize) -> (r: Option<(PublicKey, usize)>)
    ensures
        match r {
            Some((pk, p)) => dec_pk(b@, pos as int) == Some((pk@, p as int)) && p <= b@.len(),
            None => dec_pk(b@, pos as int) is None,
        },
{
    match read_u8(b, pos) {
        Some((tag, p)) => {
            if tag == 0 {
                match read_array::<32>(b, p) {
                    Some((a, p2)) => Some((PublicKey::ED25519(ED25519PublicKey(a)), p2)),
                    None => None,
                }
            } else if tag == 1 {
                match read_array::<64>(b, p) {
                    Some((a, p2)) => Some((PublicKey::SECP256K1(Secp256K1PublicKey(a)), p2)),
                    None => None,
                }
            } else {
                None
            }
        },
        None => None,
    }
}

/// Reads a tagged optional amount.
fn read_opt_u128(b: &Vec<u8>, pos: usize) -> (r: Option<(Option<u128>, usize)>)
    ensures
        match r {
            Some((o, p)) => dec_opt_u128(b@, pos as int) == Some((o, p as int)) && p <= b@.len(),
            None => dec_opt_u128(b@, pos as int) is None,
        },
{
    match read_u8(b, pos) {
        Some((tag, p)) => {
            if tag == 0 {
                Some((None, p))
            } else if tag == 1 {
                match read_u128(b, p) {
                    Some((x, p2)) => Some((Some(x), p2)),
                    None => None,
                }
            } else {
                None
            }
        },
        None => None,
    }
}

/// Reads `n` text fields.
fn read_str_list(b: &Vec<u8>, pos: usize, n: u32) -> (r: Option<(Vec<String>, usize)>)
    ensures
        match r {
            Some((v, p)) => dec_str_list(b@, pos as int, n as nat) == Some(
                (Seq::new(v@.len(), |i: int| v@[i]@), p as int),
            ),
            None => dec_str_list(b@, pos as int, n as nat) is None,
        },
{
    let mut acc: Vec<String> = Vec::new();
    let ghost mut accv: Seq<Seq<char>> = Seq::empty();
    let mut cur = pos;
    let mut i: u32 = 0;
    proof {
        if dec_str_list(b@, pos as int, n as nat) is Some {
            assert(accv + dec_str_list(b@, pos as int, n as nat)->Some_0.0 =~= dec_str_list(
                b@,
                pos as int,
                n as nat,
            )->Some_0.0);
        }
    }
    while i < n
        invariant
            i <= n,
            accv.len() == acc@.len(),
            forall|j: int| 0 <= j < accv.len() ==> accv[j] == acc@[j]@,
            prepend_strs(accv, dec_str_list(b@, cur as int, (n - i) as nat)) == dec_str_list(
                b@,
                pos as int,
                n as nat,
            ),
        decreases n - i,
    {
        match read_str(b, cur) {
            Some((s, p)) => {
                proof {
                    let m = (n - i) as nat;
                    let tail = dec_str_list(b@, p as int, (m - 1) as nat);
                    if tail is Some {
                        assert(accv.push(s@) + tail->Some_0.0 =~= accv + (seq![s@]
                            + tail->Some_0.0));
                    }
                    accv = accv.push(s@);
                }
                acc.push(s);
                cur = p;
            },
            None => {
                proof {
                    assert(dec_str_list(b@, cur as int, (n - i) as nat) is None);
                }
                return None;
            },
        }
        i += 1;
    }
    proof {
        assert(accv + Seq::<Seq<char>>::empty() =~= accv);
        assert(Seq::new(acc@.len(), |j: int| acc@[j]@) =~= accv);
    }
    Some((acc, cur))
}

/// Reads a function-call permission.
fn read_fcp(b: &Vec<u8>, pos: usize) -> (r: Option<(FunctionCallPermission, usize)>)
    ensures
        match r {
            Some((f, p)) => dec_fcp(b@, pos as int) == Some((f@, p as int)),
            None => dec_fcp(b@, pos as int) is None,
        },
{
    match read_opt_u128(b, pos) {
        Some((allowance, p)) => match read_str(b, p) {
            Some((receiver_id, p2)) => match read_u32(b, p2) {
                Some((cnt, p3)) => match read_str_list(b, p3, cnt) {
                    Some((method_names, p4)) => {
                        let f = FunctionCallPermission { allowance, receiver_id, method_names };
                        proof {
                            assert(f@.method_names =~= Seq::new(
                                f.method_names@.len(),
                                |i: int| f.method_names@[i]@,
                            ));
                        }
                        Some((f, p4))
                    },
                    None => None,
                },
                None => None,
            },
            None => None,
        },
        None => None,
    }
}

/// Reads a tagged permission.
fn read_permission(b: &Vec<u8>, pos: usize) -> (r: Option<(AccessKeyPermission, usize)>)
    ensures
        match r {
            Some((perm, p)) => dec_permission(b@, pos as int) == Some((perm@, p as int)),
            None => dec_permission(b@, pos as int) is None,
        },
{
    match read_u8(b, pos) {
        Some((tag, p)) => {
            if tag == 0 {
                match read_fcp(b, p) {
                    Some((f, p2)) => Some((AccessKeyPermission::FunctionCall(f), p2)),
                    None => None,
                }
            } else if tag == 1 {
                Some((AccessKeyPermission::FullAccess, p))
            } else {
                None
            }
        },
        None => None,
    }
}

/// Reads an access key.
fn read_access_key(b: &Vec<u8>, pos: usize) -> (r: Option<(AccessKey, usize)>)
    ensures
        match r {
            Some((ak, p)) => dec_access_key(b@, pos as int) == Some((ak@, p as int)),
            None => dec_access_key(b@, pos as int) is None,
        },
{
    match read_u64(b, pos) {
        Some((nonce, p)) => match read_permission(b, p) {
            Some((permission, p2)) => Some((AccessKey { nonce, permission }, p2)),
            None => None,
        },
        None => None,
    }
}

/// Reads one tagged operation.
fn read_action(b: &Vec<u8>, pos: usize) -> (r: Option<(Action, usize)>)
    ensures
        match r {
            Some((a, p)) => dec_action(b@, pos as int) == Some((a@, p as int)),
            None => dec_action(b@, pos as int) is None,
        },
{
    match read_u8(b, pos) {
        Some((tag, p)) => {
            if tag == 0 {
                Some((Action::CreateAccount(CreateAccountAction {  }), p))
            } else if tag == 1 {
                match read_bytes(b, p) {
                    Some((code, p2)) => Some(
                        (Action::DeployContract(DeployContractAction { code }), p2),
                    ),
                    None => None,
                }
            } else if tag == 2 {
                match read_str(b, p) {
                    Some((method_name, p2)) => match read_bytes(b, p2) {
                        Some((args, p3)) => match read_u64(b, p3) {
                            Some((gas, p4)) => match read_u128(b, p4) {
                                Some((deposit, p5)) => Some(
                                    (
                                        Action::FunctionCall(
                                            Box::new(
                                                FunctionCallAction {
                                                    method_name,
                                                    args,
                                                    gas,
                                                    deposit,
                                                },
                                            ),
                                        ),
                                        p5,
                                    ),
                                ),
                                None => None,
                            },
                            None => None,
                        },
                        None => None,
                    },
                    None => None,
                }
            } else if tag == 3 {
                match read_u128(b, p) {
                    Some((deposit, p2)) => Some((Action::Transfer(TransferAction { deposit }), p2)),
                    None => None,
                }
            } else if tag == 4 {
                match read_u128(b, p) {
                    Some((stake, p2)) => match read_pk(b, p2) {
                        Some((public_key, p3)) => Some(
                            (Action::Stake(Box::new(StakeAction { stake, public_key })), p3),
                        ),
                        None => None,
                    },
                    None => None,
                }
            } else if tag == 5 {
                match read_pk(b, p) {
                    Some((public_key, p2)) => match read_access_key(b, p2) {
                        Some((access_key, p3)) => Some(
                            (Action::AddKey(Box::new(AddKeyAction { public_key, access_key })), p3),
                        ),
                        None => None,
                    },
                    None => None,
                }
            } else if tag == 6 {
                match read_pk(b, p) {
                    Some((public_key, p2)) => Some(
                        (Action::DeleteKey(Box::new(DeleteKeyAction { public_key })), p2),
                    ),
                    None => None,
                }
            } else if tag == 7 {
                match read_str(b, p) {
                    Some((beneficiary_id, p2)) => Some(
                        (Action::DeleteAccount(DeleteAccountAction { beneficiary_id }), p2),
                    ),
                    None => None,
                }
            } else {
                None
            }
        },
        None => None,
    }
}

/// Reads `n` operations.
fn read_action_list(b: &Vec<u8>, pos: usize, n: u32) -> (r: Option<(Vec<Action>, usize)>)
    ensures
        match r {
            Some((v, p)) => dec_action_list(b@, pos as int, n as nat) == Some(
                (Seq::new(v@.len(), |i: int| v@[i]@), p as int),
            ),
            None => dec_action_list(b@, pos as int, n as nat) is None,
        },
{
    let mut acc: Vec<Action> = Vec::new();
    let ghost mut accv: Seq<ActionView> = Seq::empty();
    let mut cur = pos;
    let mut i: u32 = 0;
    proof {
        if dec_action_list(b@, pos as int, n as nat) is Some {
            assert(accv + dec_action_list(b@, pos as int, n as nat)->Some_0.0 =~= dec_action_list(
                b@,
                pos as int,
                n as nat,
            )->Some_0.0);
        }
    }
    while i < n
        invariant
            i <= n,
            accv.len() == acc@.len(),
            forall|j: int| 0 <= j < accv.len() ==> accv[j] == acc@[j]@,
            prepend_actions(accv, dec_action_list(b@, cur as int, (n - i) as nat))
                == dec_action_list(b@, pos as int, n as nat),
        decreases n - i,
    {
        match read_action(b, cur) {
            Some((a, p)) => {
                proof {
                    let m = (n - i) as nat;
                    let tail = dec_action_list(b@, p as int, (m - 1) as nat);
                    if tail is Some {
                        assert(accv.push(a@) + tail->Some_0.0 =~= accv + (seq![a@]
                            + tail->Some_0.0));
                    }
                    accv = accv.push(a@);
                }
                acc.push(a);
                cur = p;
            },
            None => {
                proof {
                    assert(dec_action_list(b@, cur as int, (n - i) as nat) is None);
                }
                return None;
            },
        }
        i += 1;
    }
    proof {
        assert(accv + Seq::<ActionView>::empty() =~= accv);
        assert(Seq::new(acc@.len(), |j: int| acc@[j]@) =~= accv);
    }
    Some((acc, cur))
}

impl NearTransaction {
    /// Reads a transaction back from its canonical bytes: the exact inverse
    /// of `build_for_signing` on well-formed records, and `None` on
    /// anything those bytes cannot be.
    pub fn from_bytes(bytes: &Vec<u8>) -> (r: Option<NearTransaction>)
        ensures
            match r {
                Some(tx) => dec_transaction(bytes@) == Some(tx@),
                None => dec_transaction(bytes@) is None,
            },
    {
        let (signer_id, p) = match read_str(bytes, 0) {
            Some(x) => x,
            None => {
                return None;
            },
        };
        let (signer_public_key, p2) = match read_pk(bytes, p) {
            Some(x) => x,
            None => {
                return None;
            },
        };
        let (nonce, p3) = match read_u64(bytes, p2) {
            Some(x) => x,
            None => {
                return None;
            },
        };
        let (receiver_id, p4) = match read_str(bytes, p3) {
            Some(x) => x,
            None => {
                return None;
            },
        };
        let (block_hash, p5) = match read_array::<32>(bytes, p4) {
            Some(x) => x,
            None => {
                return None;
            },
        };
        let (n, p6) = match read_u32(bytes, p5) {
            Some(x) => x,
            None => {
                return None;
            },
        };
        let (actions, p7) = match read_action_list(bytes, p6, n) {
            Some(x) => x,
            None => {
                return None;
            },
        };
        if p7 != bytes.len() {
            return None;
        }
        let tx = NearTransaction {
            signer_id,
            signer_public_key,
            nonce,
            receiver_id,
            block_hash: BlockHash(block_hash),
            actions,
        };
        proof {
            assert(Seq::new(tx.actions@.len(), |i: int| tx.actions@[i]@) =~= Seq::new(
                actions@.len(),
                |i: int| actions@[i]@,
            ));
        }
        Some(tx)
    }
}

} // verus!
