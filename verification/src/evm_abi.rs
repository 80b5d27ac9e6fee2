//! The standard EVM call encoding: a four-byte selector derived from the
//! canonical function signature, followed by the arguments in head/tail
//! form — fixed-size values inline, dynamic values length-prefixed in the
//! tail with their offsets in the head.

use vstd::prelude::*;

use vstd::utf8::encode_utf8;

use crate::digest::{keccak256, keccak256_of};
use crate::evm_tokens::{be32_of_u128, SerializableParam, SerializableParamType, TokenValue};

verus! {

/// Whether a value's encoding has variable size and therefore lives in the
/// tail: byte strings, text, dynamic arrays, and any aggregate holding one.
pub open spec fn is_dynamic(t: TokenValue) -> bool
    decreases t,
{
    match t {
        TokenValue::Bytes(_) => true,
        TokenValue::String(_) => true,
        TokenValue::Array(_) => true,
        TokenValue::FixedArray(v) => exists|i: int|
            0 <= i < v@.len() && is_dynamic(#[trigger] v@[i]),
        TokenValue::Tuple(v) => exists|i: int| 0 <= i < v@.len() && is_dynamic(#[trigger] v@[i]),
        _ => false,
    }
}

/// `n` zero bytes.
pub open spec fn zeros(n: int) -> Seq<u8> {
    Seq::new(n as nat, |i: int| 0u8)
}

/// The padding that brings `n` bytes to a 32-byte boundary.
pub open spec fn pad_len(n: int) -> int {
    (32 - n % 32) % 32
}

/// One value's encoding.
pub open spec fn abi_enc(t: TokenValue) -> Seq<u8>
    decreases t, 0int,
{
    match t {
        TokenValue::Address(a) => zeros(12) + a.0@,
        TokenValue::FixedBytes(b) => b@ + zeros(pad_len(b@.len() as int)),
        TokenValue::Bytes(b) => be32_of_u128(b@.len() as u128) + b@ + zeros(
            pad_len(b@.len() as int),
        ),
        TokenValue::Int(u) => u.0@,
        TokenValue::Uint(u) => u.0@,
        TokenValue::Bool(x) => zeros(31) + seq![if x { 1u8 } else { 0u8 }],
        TokenValue::String(s) => be32_of_u128(encode_utf8(s@).len() as u128) + encode_utf8(s@)
            + zeros(pad_len(encode_utf8(s@).len() as int)),
        TokenValue::FixedArray(v) => if exists|i: int|
            0 <= i < v@.len() && is_dynamic(#[trigger] v@[i]) {
            head_tail(v@)
        } else {
            abi_enc_list_from(v@, 0)
        },
        TokenValue::Array(v) => be32_of_u128(v@.len() as u128) + head_tail(v@),
        TokenValue::Tuple(v) => if exists|i: int|
            0 <= i < v@.len() && is_dynamic(#[trigger] v@[i]) {
            head_tail(v@)
        } else {
            abi_enc_list_from(v@, 0)
        },
    }
}

/// The encodings of `s[i..]`, concatenated.
pub open spec fn abi_enc_list_from(s: Seq<TokenValue>, i: int) -> Seq<u8>
    decreases s, s.len() - i,
{
    if i < 0 || i >= s.len() {
        Seq::empty()
    } else {
        abi_enc(s[i]) + abi_enc_list_from(s, i + 1)
    }
}

/// The size of the head block of `s[i..]`: fixed-size values contribute
/// their encodings, dynamic values a 32-byte offset.
pub open spec fn head_size_from(s: Seq<TokenValue>, i: int) -> int
    decreases s, s.len() - i,
{
    if i < 0 || i >= s.len() {
        0
    } else {
        (if is_dynamic(s[i]) {
            32int
        } else {
            abi_enc(s[i]).len() as int
        }) + head_size_from(s, i + 1)
    }
}

/// The head block of `s[i..]`: fixed-size values inline, dynamic values as
/// the offset at which their tail encoding starts.
pub open spec fn heads_from(s: Seq<TokenValue>, i: int, off: int) -> Seq<u8>
    decreases s, s.len() - i,
{
    if i < 0 || i >= s.len() {
        Seq::empty()
    } else if is_dynamic(s[i]) {
        be32_of_u128(off as u128) + heads_from(s, i + 1, off + abi_enc(s[i]).len())
    } else {
        abi_enc(s[i]) + heads_from(s, i + 1, off)
    }
}

/// The tail block of `s[i..]`: the encodings of the dynamic values.
pub open spec fn tails_from(s: Seq<TokenValue>, i: int) -> Seq<u8>
    decreases s, s.len() - i,
{
    if i < 0 || i >= s.len() {
        Seq::empty()
    } else if is_dynamic(s[i]) {
        abi_enc(s[i]) + tails_from(s, i + 1)
    } else {
        tails_from(s, i + 1)
    }
}

/// The head/tail encoding of a value list, offsets measured from the head
/// block's start.
pub open spec fn head_tail(s: Seq<TokenValue>) -> Seq<u8>
    decreases s, s.len() + 1,
{
    heads_from(s, 0, head_size_from(s, 0)) + tails_from(s, 0)
}

/// The decimal text of `n`, as bytes.
pub open spec fn dec_text(n: int) -> Seq<u8>
    decreases n,
{
    if n < 10 {
        seq![(48 + if n >= 0 {
            n
        } else {
            0
        }) as u8]
    } else {
        dec_text(n / 10) + seq![(48 + n % 10) as u8]
    }
}

/// The canonical text of a parameter type, as it appears in a function
/// signature.
pub open spec fn type_text(k: SerializableParamType) -> Seq<u8>
    decreases k, 0int,
{
    match k {
        SerializableParamType::Address => encode_utf8("address"@),
        SerializableParamType::Bytes => encode_utf8("bytes"@),
        SerializableParamType::Int(n) => encode_utf8("int"@) + dec_text(n as int),
        SerializableParamType::Uint(n) => encode_utf8("uint"@) + dec_text(n as int),
        SerializableParamType::Bool => encode_utf8("bool"@),
        SerializableParamType::String => encode_utf8("string"@),
        SerializableParamType::Array(t) => type_text(*t) + encode_utf8("[]"@),
        SerializableParamType::FixedBytes(n) => encode_utf8("bytes"@) + dec_text(n as int),
        SerializableParamType::FixedArray(t, n) => type_text(*t) + encode_utf8("["@) + dec_text(
            n as int,
        ) + encode_utf8("]"@),
        SerializableParamType::Tuple(ts) => encode_utf8("("@) + type_texts_from(ts@, 0)
            + encode_utf8(")"@),
    }
}

/// The comma-separated canonical texts of `s[i..]`.
pub open spec fn type_texts_from(s: Seq<SerializableParamType>, i: int) -> Seq<u8>
    decreases s, s.len() - i,
{
    if i < 0 || i >= s.len() {
        Seq::empty()
    } else if i + 1 < s.len() {
        type_text(s[i]) + encode_utf8(","@) + type_texts_from(s, i + 1)
    } else {
        type_text(s[i])
    }
}

/// The canonical signature of a function: its name and the parameter type
/// texts in parentheses.
pub open spec fn signature_bytes(name: Seq<char>, params: Seq<SerializableParamType>) -> Seq<u8> {
    encode_utf8(name) + encode_utf8("("@) + type_texts_from(params, 0) + encode_utf8(")"@)
}

/// The whole call data: the first four bytes of the signature's Keccak-256
/// digest, then the arguments in head/tail form.
pub open spec fn call_data(
    name: Seq<char>,
    params: Seq<SerializableParamType>,
    args: Seq<TokenValue>,
) -> Seq<u8> {
    keccak256_of(signature_bytes(name, params)).take(4) + head_tail(args)
}

/// Whether a value's encoding has variable size.
pub fn token_is_dynamic(t: &TokenValue) -> (r: bool)
    ensures
        r == is_dynamic(*t),
    decreases *t,
{
    match t {
        TokenValue::Bytes(_) => true,
        TokenValue::String(_) => true,
        TokenValue::Array(_) => true,
        TokenValue::FixedArray(v) => any_dynamic(v),
        TokenValue::Tuple(v) => any_dynamic(v),
        _ => false,
    }
}

/// Whether any element's encoding has variable size.
fn any_dynamic(v: &Vec<TokenValue>) -> (r: bool)
    ensures
        r == exists|i: int| 0 <= i < v@.len() && is_dynamic(#[trigger] v@[i]),
    decreases v@,
{
    let mut i: usize = 0;
    while i < v.len()
        invariant
            i <= v@.len(),
            forall|j: int| 0 <= j < i ==> !is_dynamic(#[trigger] v@[j]),
        decreases v@.len() - i,
    {
        if token_is_dynamic(&v[i]) {
            return true;
        }
        i += 1;
    }
    false
}

/// Appends `n` zero bytes.
fn push_zeros(out: &mut Vec<u8>, n: usize)
    ensures
        final(out)@ == old(out)@ + zeros(n as int),
{
    let ghost base = out@;
    let mut i: usize = 0;
    while i < n
        invariant
            i <= n,
            out@ == base + zeros(i as int),
        decreases n - i,
    {
        out.push(0u8);
        proof {
            assert(base + zeros(i as int + 1) =~= (base + zeros(i as int)).push(0u8));
        }
        i += 1;
    }
}

/// Appends the 32 big-endian bytes of a 128-bit value.
fn push_be32_u128(out: &mut Vec<u8>, x: u128)
    ensures
        final(out)@ == old(out)@ + be32_of_u128(x),
{
    let ghost base = out@;
    let mut i: usize = 0;
    while i < 32
        invariant
            i <= 32,
            out@ == base + be32_of_u128(x).take(i as int),
        decreases 32 - i,
    {
        let byte: u8 = if i < 16 {
            0u8
        } else {
            ((x >> (((31 - i) * 8) as u128)) & 0xff) as u8
        };
        out.push(byte);
        proof {
            assert(be32_of_u128(x)[i as int] == byte);
            assert(base + be32_of_u128(x).take(i as int + 1) =~= (base + be32_of_u128(x).take(
                i as int,
            )).push(byte));
        }
        i += 1;
    }
    proof {
        assert(be32_of_u128(x).take(32) =~= be32_of_u128(x));
    }
}

/// Appends a slice.
fn push_slice(out: &mut Vec<u8>, s: &[u8])
    ensures
        final(out)@ == old(out)@ + s@,
{
    let ghost base = out@;
    let mut i: usize = 0;
    while i < s.len()
        invariant
            i <= s@.len(),
            out@ == base + s@.take(i as int),
        decreases s@.len() - i,
    {
        out.push(s[i]);
        proof {
            assert(base + s@.take(i as int + 1) =~= (base + s@.take(i as int)).push(s@[i as int]));
        }
        i += 1;
    }
    proof {
        assert(base + s@.take(s@.len() as int) =~= base + s@);
    }
}

/// Appends the padding that brings `n` bytes to a 32-byte boundary.
fn push_padding(out: &mut Vec<u8>, n: usize)
    ensures
        final(out)@ == old(out)@ + zeros(pad_len(n as int)),
{
    let pad = (32 - n % 32) % 32;
    push_zeros(out, pad);
}

/// Encodes one value.
pub fn abi_encode_token(t: &TokenValue) -> (r: Vec<u8>)
    ensures
        r@ == abi_enc(*t),
    decreases *t,
{
    let mut out: Vec<u8> = Vec::new();
    match t {
        TokenValue::Address(a) => {
            push_zeros(&mut out, 12);
            push_slice(&mut out, a.0.as_slice());
        },
        TokenValue::FixedBytes(b) => {
            push_slice(&mut out, b.as_slice());
            push_padding(&mut out, b.len());
        },
        TokenValue::Bytes(b) => {
            push_be32_u128(&mut out, b.len() as u128);
            push_slice(&mut out, b.as_slice());
            push_padding(&mut out, b.len());
        },
        TokenValue::Int(u) => {
            push_slice(&mut out, u.0.as_slice());
        },
        TokenValue::Uint(u) => {
            push_slice(&mut out, u.0.as_slice());
        },
        TokenValue::Bool(x) => {
            push_zeros(&mut out, 31);
            if *x {
                out.push(1u8);
            } else {
                out.push(0u8);
            }
            proof {
                assert(out@ =~= zeros(31) + seq![if *x { 1u8 } else { 0u8 }]);
            }
        },
        TokenValue::String(s) => {
            let bytes = s.as_str().as_bytes();
            push_be32_u128(&mut out, bytes.len() as u128);
            push_slice(&mut out, bytes);
            push_padding(&mut out, bytes.len());
        },
        TokenValue::FixedArray(v) => {
            if any_dynamic(v) {
                let mut ht = encode_head_tail(v);
                out.append(&mut ht);
            } else {
                let mut c = encode_concat(v);
                out.append(&mut c);
            }
        },
        TokenValue::Array(v) => {
            push_be32_u128(&mut out, v.len() as u128);
            let mut ht = encode_head_tail(v);
            out.append(&mut ht);
        },
        TokenValue::Tuple(v) => {
            if any_dynamic(v) {
                let mut ht = encode_head_tail(v);
                out.append(&mut ht);
            } else {
                let mut c = encode_concat(v);
                out.append(&mut c);
            }
        },
    }
    proof {
        assert(out@ =~= abi_enc(*t));
    }
    out
}

/// Encodes a list of fixed-size values back to back.
fn encode_concat(v: &Vec<TokenValue>) -> (r: Vec<u8>)
    ensures
        r@ == abi_enc_list_from(v@, 0),
    decreases v@,
{
    let mut out: Vec<u8> = Vec::new();
    let mut i: usize = 0;
    while i < v.len()
        invariant
            i <= v@.len(),
            out@ + abi_enc_list_from(v@, i as int) == abi_enc_list_from(v@, 0),
        decreases v@.len() - i,
    {
        let mut e = abi_encode_token(&v[i]);
        proof {
            assert((out@ + e@) + abi_enc_list_from(v@, i as int + 1) =~= out@ + (e@
                + abi_enc_list_from(v@, i as int + 1)));
        }
        out.append(&mut e);
        i += 1;
    }
    proof {
        assert(out@ + Seq::<u8>::empty() =~= out@);
    }
    out
}

/// Encodes a list in head/tail form: fixed-size values inline in the head,
/// dynamic values in the tail behind their offsets.
fn encode_head_tail(v: &Vec<TokenValue>) -> (r: Vec<u8>)
    ensures
        r@ == head_tail(v@),
    decreases v@,
{
    let n = v.len();
    let mut encs: Vec<Vec<u8>> = Vec::new();
    let mut heads0: Vec<u8> = Vec::new();
    let mut i: usize = 0;
    while i < n
        invariant
            i <= n,
            n == v@.len(),
            encs@.len() == i,
            forall|j: int| 0 <= j < i ==> (#[trigger] encs@[j])@ == abi_enc(v@[j]),
            heads0@.len() as int + head_size_from(v@, i as int) == head_size_from(v@, 0),
        decreases n - i,
    {
        let e = abi_encode_token(&v[i]);
        if token_is_dynamic(&v[i]) {
            push_zeros(&mut heads0, 32);
        } else {
            push_slice(&mut heads0, e.as_slice());
        }
        encs.push(e);
        i += 1;
    }
    let head_size: usize = heads0.len();
    proof {
        assert(head_size as int == head_size_from(v@, 0));
    }
    let mut heads: Vec<u8> = Vec::new();
    let mut tails: Vec<u8> = Vec::new();
    let mut j: usize = 0;
    while j < n
        invariant
            j <= n,
            n == v@.len(),
            encs@.len() == n,
            forall|k: int| 0 <= k < n ==> (#[trigger] encs@[k])@ == abi_enc(v@[k]),
            head_size as int == head_size_from(v@, 0),
            heads@ + heads_from(v@, j as int, head_size as int + tails@.len() as int)
                == heads_from(v@, 0, head_size as int),
            tails@ + tails_from(v@, j as int) == tails_from(v@, 0),
        decreases n - j,
    {
        if token_is_dynamic(&v[j]) {
            let off: u128 = head_size as u128 + tails.len() as u128;
            proof {
                let rest = heads_from(
                    v@,
                    j as int + 1,
                    head_size as int + tails@.len() as int + abi_enc(v@[j as int]).len() as int,
                );
                assert((heads@ + be32_of_u128(off)) + rest =~= heads@ + (be32_of_u128(off)
                    + rest));
                assert((tails@ + abi_enc(v@[j as int])) + tails_from(v@, j as int + 1) =~= tails@
                    + (abi_enc(v@[j as int]) + tails_from(v@, j as int + 1)));
            }
            push_be32_u128(&mut heads, off);
            push_slice(&mut tails, encs[j].as_slice());
        } else {
            proof {
                let rest = heads_from(v@, j as int + 1, head_size as int + tails@.len() as int);
                assert((heads@ + abi_enc(v@[j as int])) + rest =~= heads@ + (abi_enc(
                    v@[j as int],
                ) + rest));
            }
            push_slice(&mut heads, encs[j].as_slice());
        }
        j += 1;
    }
    proof {
        assert(heads@ + Seq::<u8>::empty() =~= heads@);
        assert(tails@ + Seq::<u8>::empty() =~= tails@);
    }
    let mut out = heads;
    let mut t = tails;
    out.append(&mut t);
    out
}

/// Appends the decimal text of `n`.
fn push_dec(out: &mut Vec<u8>, n: usize)
    ensures
        final(out)@ == old(out)@ + dec_text(n as int),
    decreases n,
{
    if n >= 10 {
        push_dec(out, n / 10);
        out.push(48 + (n % 10) as u8);
        proof {
            assert(old(out)@ + dec_text(n as int) =~= (old(out)@ + dec_text(n as int / 10)).push(
                (48 + n as int % 10) as u8,
            ));
        }
    } else {
        out.push(48 + (n % 10) as u8);
        proof {
            assert(old(out)@ + dec_text(n as int) =~= old(out)@.push((48 + n as int) as u8));
        }
    }
}

/// Appends the canonical text of a parameter type.
fn push_type_text(out: &mut Vec<u8>, k: &SerializableParamType)
    ensures
        final(out)@ == old(out)@ + type_text(*k),
    decreases *k,
{
    match k {
        SerializableParamType::Address => {
            push_slice(out, "address".as_bytes());
        },
        SerializableParamType::Bytes => {
            push_slice(out, "bytes".as_bytes());
        },
        SerializableParamType::Int(n) => {
            push_slice(out, "int".as_bytes());
            push_dec(out, *n);
            proof {
                assert(final(out)@ =~= old(out)@ + type_text(*k));
            }
        },
        SerializableParamType::Uint(n) => {
            push_slice(out, "uint".as_bytes());
            push_dec(out, *n);
            proof {
                assert(final(out)@ =~= old(out)@ + type_text(*k));
            }
        },
        SerializableParamType::Bool => {
            push_slice(out, "bool".as_bytes());
        },
        SerializableParamType::String => {
            push_slice(out, "string".as_bytes());
        },
        SerializableParamType::Array(t) => {
            push_type_text(out, t);
            push_slice(out, "[]".as_bytes());
            proof {
                assert(final(out)@ =~= old(out)@ + type_text(*k));
            }
        },
        SerializableParamType::FixedBytes(n) => {
            push_slice(out, "bytes".as_bytes());
            push_dec(out, *n);
            proof {
                assert(final(out)@ =~= old(out)@ + type_text(*k));
            }
        },
        SerializableParamType::FixedArray(t, n) => {
            push_type_text(out, t);
            push_slice(out, "[".as_bytes());
            push_dec(out, *n);
            push_slice(out, "]".as_bytes());
            proof {
                assert(final(out)@ =~= old(out)@ + type_text(*k));
            }
        },
        SerializableParamType::Tuple(ts) => {
            push_slice(out, "(".as_bytes());
            push_type_texts(out, ts);
            push_slice(out, ")".as_bytes());
            proof {
                assert(final(out)@ =~= old(out)@ + type_text(*k));
            }
        },
    }
}

/// Appends the comma-separated canonical texts of a type list.
fn push_type_texts(out: &mut Vec<u8>, ts: &Vec<SerializableParamType>)
    ensures
        final(out)@ == old(out)@ + type_texts_from(ts@, 0),
    decreases ts@,
{
    let ghost base = out@;
    let mut i: usize = 0;
    while i < ts.len()
        invariant
            i <= ts@.len(),
            out@ + type_texts_from(ts@, i as int) == base + type_texts_from(ts@, 0),
        decreases ts@.len() - i,
    {
        let ghost before = out@;
        push_type_text(out, &ts[i]);
        if i + 1 < ts.len() {
            push_slice(out, ",".as_bytes());
            proof {
                assert(out@ + type_texts_from(ts@, i as int + 1) =~= before + (type_text(
                    ts@[i as int],
                ) + encode_utf8(","@) + type_texts_from(ts@, i as int + 1)));
            }
        } else {
            proof {
                assert(type_texts_from(ts@, i as int + 1) =~= Seq::<u8>::empty());
                assert(out@ + type_texts_from(ts@, i as int + 1) =~= before + type_texts_from(
                    ts@,
                    i as int,
                ));
            }
        }
        i += 1;
    }
    proof {
        assert(type_texts_from(ts@, ts@.len() as int) =~= Seq::<u8>::empty());
        assert(out@ =~= base + type_texts_from(ts@, 0));
    }
}

/// The declared kinds of a parameter list.
pub open spec fn param_kinds(params: Seq<SerializableParam>) -> Seq<SerializableParamType> {
    Seq::new(params.len(), |i: int| params[i].kind)
}

/// Appends the comma-separated canonical texts of the parameters' kinds.
fn push_param_type_texts(out: &mut Vec<u8>, params: &Vec<SerializableParam>)
    ensures
        final(out)@ == old(out)@ + type_texts_from(param_kinds(params@), 0),
{
    let ghost s = param_kinds(params@);
    let ghost base = out@;
    let mut i: usize = 0;
    while i < params.len()
        invariant
            i <= params@.len(),
            s == param_kinds(params@),
            s.len() == params@.len(),
            forall|j: int| 0 <= j < s.len() ==> s[j] == params@[j].kind,
            out@ + type_texts_from(s, i as int) == base + type_texts_from(s, 0),
        decreases params@.len() - i,
    {
        let ghost before = out@;
        push_type_text(out, &params[i].kind);
        if i + 1 < params.len() {
            push_slice(out, ",".as_bytes());
            proof {
                assert(out@ + type_texts_from(s, i as int + 1) =~= before + (type_text(
                    s[i as int],
                ) + encode_utf8(","@) + type_texts_from(s, i as int + 1)));
            }
        } else {
            proof {
                assert(type_texts_from(s, i as int + 1) =~= Seq::<u8>::empty());
                assert(out@ + type_texts_from(s, i as int + 1) =~= before + type_texts_from(
                    s,
                    i as int,
                ));
            }
        }
        i += 1;
    }
    proof {
        assert(type_texts_from(s, s.len() as int) =~= Seq::<u8>::empty());
        assert(out@ =~= base + type_texts_from(s, 0));
    }
}

/// Encodes a whole call: the selector from the canonical signature, then
/// the arguments in head/tail form.
pub fn encode_function_call(
    method_name: &String,
    params: &Vec<SerializableParam>,
    args: &Vec<TokenValue>,
) -> (r: Vec<u8>)
    ensures
        r@ == call_data(method_name@, param_kinds(params@), args@),
{
    let mut sig: Vec<u8> = Vec::new();
    push_slice(&mut sig, method_name.as_str().as_bytes());
    push_slice(&mut sig, "(".as_bytes());
    push_param_type_texts(&mut sig, params);
    push_slice(&mut sig, ")".as_bytes());
    proof {
        assert(sig@ =~= signature_bytes(method_name@, param_kinds(params@)));
    }
    let digest = keccak256(sig.as_slice());
    let mut out: Vec<u8> = Vec::new();
    push_slice(&mut out, vstd::slice::slice_subrange(digest.as_slice(), 0, 4));
    let mut body = encode_head_tail(args);
    out.append(&mut body);
    proof {
        assert(out@ =~= call_data(method_name@, param_kinds(params@), args@));
    }
    out
}

} // verus!
