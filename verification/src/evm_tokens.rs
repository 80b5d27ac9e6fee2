//! EVM call arguments: the wire form in which they arrive, the validated
//! form the encoder works on, and the parsing between them.
//!
//! Arguments arrive as tagged text (addresses and byte strings as hex,
//! numbers as decimal or hex text) and are validated into raw values before
//! anything is encoded; malformed text is rejected with `InvalidAddress` or
//! `InvalidHex`.

use vstd::prelude::*;

use vstd::arithmetic::div_mod::{lemma_div_is_ordered, lemma_fundamental_div_mod};

use crate::errors::TrialError;
use crate::hexformat::{address_bytes_of, hex_bytes_of, parse_evm_address, parses_as_address,
    strip_0x, valid_hex_str, EvmAddress};
use crate::numeric::{be32_of_int, be_val, le_val, lemma_be_val_bounds, lemma_be_val_lower,
    lemma_be_val_skip_zeros, lemma_le_val_be32, lemma_le_val_bounds, lemma_le_val_reverse,
    lemma_le_val_snoc, lemma_le_val_zero_ext, lemma_pow256_mono, lemma_pow256_pos, pow256};

verus! {

/// A parameter type of an EVM function, as it arrives.
#[derive(Debug)]
pub enum SerializableParamType {
    Address,
    Bytes,
    Int(usize),
    Uint(usize),
    Bool,
    String,
    Array(Box<SerializableParamType>),
    FixedBytes(usize),
    FixedArray(Box<SerializableParamType>, usize),
    Tuple(Vec<SerializableParamType>),
}

/// A named parameter of an EVM function, as it arrives.
#[derive(Debug)]
pub struct SerializableParam {
    pub name: String,
    pub kind: SerializableParamType,
}

/// An argument value as it arrives: addresses, byte strings and numbers
/// are text.
#[derive(Debug)]
pub enum SerializableToken {
    Address(String),
    FixedBytes(String),
    Bytes(String),
    Int(String),
    Uint(String),
    Bool(bool),
    String(String),
    FixedArray(Vec<SerializableToken>),
    Array(Vec<SerializableToken>),
    Tuple(Vec<SerializableToken>),
}

/// A 256-bit value as 32 big-endian bytes.
#[derive(Clone, Copy, Debug, PartialEq, Eq)]
pub struct Uint256(pub [u8; 32]);

/// A validated argument value: addresses and numbers are raw bytes, ready
/// to encode.
#[derive(Debug)]
pub enum TokenValue {
    Address(EvmAddress),
    FixedBytes(Vec<u8>),
    Bytes(Vec<u8>),
    Int(Uint256),
    Uint(Uint256),
    Bool(bool),
    String(String),
    FixedArray(Vec<TokenValue>),
    Array(Vec<TokenValue>),
    Tuple(Vec<TokenValue>),
}

/// The numeric value denoted by decimal text.
pub open spec fn dec_value(s: Seq<char>) -> int
    decreases s.len(),
{
    if s.len() == 0 {
        0
    } else {
        dec_value(s.drop_last()) * 10 + (s.last() as u32 - 48)
    }
}

/// Whether `s` is non-empty decimal text.
pub open spec fn is_dec_text(s: Seq<char>) -> bool {
    s.len() > 0 && forall|i: int| 0 <= i < s.len() ==> 48 <= (#[trigger] s[i]) as u32 <= 57
}

/// `s` with a leading zero digit when its length is odd, so that hex
/// digits pair into bytes.
pub open spec fn pad_even(s: Seq<char>) -> Seq<char> {
    if s.len() % 2 == 0 {
        s
    } else {
        seq!['0'] + s
    }
}

/// 32 big-endian bytes of a 128-bit value.
pub open spec fn be32_of_u128(x: u128) -> Seq<u8> {
    Seq::new(32, |i: int| if i < 16 { 0u8 } else { ((x >> ((31 - i) * 8)) & 0xff) as u8 })
}

/// Whether the text is the hex form: a `0x` prefix.
pub open spec fn is_hex_form(s: Seq<char>) -> bool {
    s.len() >= 2 && s[0] == '0' && s[1] == 'x'
}

/// The numeric value denoted: the big-endian reading of the hex digits
/// after `0x`, or the decimal reading.
pub open spec fn u256_value_of(s: Seq<char>) -> int {
    if is_hex_form(s) {
        be_val(hex_bytes_of(pad_even(s.skip(2))))
    } else {
        dec_value(s)
    }
}

/// Whether numeric text denotes a 256-bit value: `0x` and at least one hex
/// digit, or non-empty decimal text, denoting a value below 256 to the
/// 32nd.
pub open spec fn u256_text_ok(s: Seq<char>) -> bool {
    if is_hex_form(s) {
        s.len() > 2 && valid_hex_str(pad_even(s.skip(2))) && u256_value_of(s) < pow256(32)
    } else {
        is_dec_text(s) && dec_value(s) < pow256(32)
    }
}

/// The 32 big-endian bytes denoted by numeric text.
pub open spec fn u256_bytes_of(s: Seq<char>) -> Seq<u8> {
    be32_of_int(u256_value_of(s))
}

/// Whether an incoming token is well-formed: every address, byte string
/// and number in it parses.
pub open spec fn token_parseable(st: SerializableToken) -> bool
    decreases st,
{
    match st {
        SerializableToken::Address(s) => parses_as_address(s@),
        SerializableToken::FixedBytes(s) => valid_hex_str(strip_0x(s@)),
        SerializableToken::Bytes(s) => valid_hex_str(strip_0x(s@)),
        SerializableToken::Int(s) => u256_text_ok(s@),
        SerializableToken::Uint(s) => u256_text_ok(s@),
        SerializableToken::Bool(_) => true,
        SerializableToken::String(_) => true,
        SerializableToken::FixedArray(v) => forall|i: int|
            0 <= i < v@.len() ==> token_parseable(#[trigger] v@[i]),
        SerializableToken::Array(v) => forall|i: int|
            0 <= i < v@.len() ==> token_parseable(#[trigger] v@[i]),
        SerializableToken::Tuple(v) => forall|i: int|
            0 <= i < v@.len() ==> token_parseable(#[trigger] v@[i]),
    }
}

/// What parsing an incoming token yields: each text field turned into the
/// raw value it denotes, shape preserved.
pub open spec fn parses_to(st: SerializableToken, tv: TokenValue) -> bool
    decreases st,
{
    match (st, tv) {
        (SerializableToken::Address(s), TokenValue::Address(a)) => parses_as_address(s@)
            && a.bytes() == address_bytes_of(s@),
        (SerializableToken::FixedBytes(s), TokenValue::FixedBytes(b)) => valid_hex_str(
            strip_0x(s@),
        ) && b@ == hex_bytes_of(strip_0x(s@)),
        (SerializableToken::Bytes(s), TokenValue::Bytes(b)) => valid_hex_str(strip_0x(s@)) && b@
            == hex_bytes_of(strip_0x(s@)),
        (SerializableToken::Int(s), TokenValue::Int(u)) => u256_text_ok(s@) && u.0@
            == u256_bytes_of(s@),
        (SerializableToken::Uint(s), TokenValue::Uint(u)) => u256_text_ok(s@) && u.0@
            == u256_bytes_of(s@),
        (SerializableToken::Bool(a), TokenValue::Bool(b)) => a == b,
        (SerializableToken::String(a), TokenValue::String(b)) => a@ == b@,
        (SerializableToken::FixedArray(va), TokenValue::FixedArray(vb)) => va@.len() == vb@.len()
            && forall|i: int| 0 <= i < va@.len() ==> parses_to(#[trigger] va@[i], vb@[i]),
        (SerializableToken::Array(va), TokenValue::Array(vb)) => va@.len() == vb@.len()
            && forall|i: int| 0 <= i < va@.len() ==> parses_to(#[trigger] va@[i], vb@[i]),
        (SerializableToken::Tuple(va), TokenValue::Tuple(vb)) => va@.len() == vb@.len()
            && forall|i: int| 0 <= i < va@.len() ==> parses_to(#[trigger] va@[i], vb@[i]),
        _ => false,
    }
}

/// Parses decimal text into a 128-bit value; rejects empty text, other
/// characters and values that do not fit.
fn parse_dec_u128(s: &str) -> (r: Result<u128, TrialError>)
    ensures
        match r {
            Ok(x) => is_dec_text(s@) && dec_value(s@) < 0x100000000000000000000000000000000 && x
                == dec_value(s@),
            Err(e) => {
                &&& e == TrialError::InvalidHex
                &&& !(is_dec_text(s@) && dec_value(s@) < 0x100000000000000000000000000000000)
            },
        },
{
    let n = s.unicode_len();
    if n == 0 {
        return Err(TrialError::InvalidHex);
    }
    let limit: u128 = u128::MAX / 10;
    let rem: u128 = u128::MAX % 10;
    let mut value: u128 = 0;
    let mut i: usize = 0;
    while i < n
        invariant
            i <= n,
            n == s@.len(),
            limit == u128::MAX / 10,
            rem == u128::MAX % 10,
            forall|j: int| 0 <= j < i ==> 48 <= (#[trigger] s@[j]) as u32 <= 57,
            value == dec_value(s@.take(i as int)),
        decreases n - i,
    {
        let c = s.get_char(i);
        let dc = c as u32;
        if dc < 48 || dc > 57 {
            return Err(TrialError::InvalidHex);
        }
        let d = (dc - 48) as u128;
        proof {
            assert(s@.take(i as int + 1).drop_last() =~= s@.take(i as int));
            assert(s@.take(i as int + 1).last() == s@[i as int]);
        }
        if value > limit || (value == limit && d > rem) {
            proof {
                assert(value * 10 + d > u128::MAX) by (nonlinear_arith)
                    requires
                        d <= 9,
                        value > u128::MAX / 10 || (value == u128::MAX / 10 && d > u128::MAX % 10),
                ;
                if is_dec_text(s@) {
                    lemma_dec_value_prefix_monotonic(s@, i as int + 1);
                }
            }
            return Err(TrialError::InvalidHex);
        }
        proof {
            assert(value * 10 + d <= u128::MAX) by (nonlinear_arith)
                requires
                    d <= 9,
                    value <= u128::MAX / 10,
                    !(value == u128::MAX / 10 && d > u128::MAX % 10),
            ;
        }
        value = value * 10 + d;
        i += 1;
    }
    proof {
        assert(s@.take(n as int) =~= s@);
    }
    Ok(value)
}

/// When every character is a digit, a longer prefix of decimal text
/// denotes at least as large a value.
proof fn lemma_dec_value_prefix_monotonic(s: Seq<char>, i: int)
    requires
        0 <= i <= s.len(),
        forall|j: int| 0 <= j < s.len() ==> 48 <= (#[trigger] s[j]) as u32 <= 57,
    ensures
        dec_value(s) >= dec_value(s.take(i)),
    decreases s.len() - i,
{
    if i < s.len() {
        lemma_dec_value_prefix_monotonic(s, i + 1);
        assert(s.take(i + 1).drop_last() =~= s.take(i));
        assert(s.take(i + 1).last() == s[i]);
        assert forall|j: int| 0 <= j < s.take(i).len() implies 48 <= (
        #[trigger] s.take(i)[j]) as u32 <= 57 by {
            assert(s.take(i)[j] == s[j]);
        }
        lemma_dec_value_nonneg(s.take(i));
        assert(dec_value(s.take(i)) * 10 >= dec_value(s.take(i))) by (nonlinear_arith)
            requires
                dec_value(s.take(i)) >= 0,
        ;
    } else {
        assert(s.take(i) =~= s);
    }
}

/// Decimal text of digits denotes a non-negative value.
proof fn lemma_dec_value_nonneg(s: Seq<char>)
    requires
        forall|j: int| 0 <= j < s.len() ==> 48 <= (#[trigger] s[j]) as u32 <= 57,
    ensures
        dec_value(s) >= 0,
    decreases s.len(),
{
    if s.len() > 0 {
        lemma_dec_value_nonneg(s.drop_last());
        assert(dec_value(s.drop_last()) * 10 >= 0) by (nonlinear_arith)
            requires
                dec_value(s.drop_last()) >= 0,
        ;
    }
}

/// Multiplies a 32-byte little-endian accumulator by ten and adds a digit,
/// returning the carry out of the top byte.
fn mul10_add(acc: &mut [u8; 32], d: u8) -> (carry: u8)
    requires
        d < 10,
    ensures
        carry <= 10,
        le_val(final(acc)@) + pow256(32) * (carry as int) == 10 * le_val(old(acc)@) + d,
{
    let ghost orig = acc@;
    let mut c: u8 = d;
    let mut j: usize = 0;
    proof {
        assert(acc@.take(0) =~= Seq::<u8>::empty());
        assert(orig.take(0) =~= Seq::<u8>::empty());
        assert(le_val(Seq::<u8>::empty()) == 0);
        assert(pow256(0) == 1);
        assert(pow256(0) * (c as int) == c) by (nonlinear_arith)
            requires
                pow256(0) == 1,
        ;
    }
    while j < 32
        invariant
            j <= 32,
            c <= 10,
            acc@.len() == 32,
            orig.len() == 32,
            acc@.skip(j as int) == orig.skip(j as int),
            le_val(acc@.take(j as int)) + pow256(j as nat) * (c as int) == 10 * le_val(
                orig.take(j as int),
            ) + d,
        decreases 32 - j,
    {
        let ghost prev = acc@;
        proof {
            assert(prev.skip(j as int)[0] == prev[j as int]);
            assert(orig.skip(j as int)[0] == orig[j as int]);
        }
        let a = acc[j];
        let t: u32 = (a as u32) * 10 + (c as u32);
        let nb = (t % 256) as u8;
        proof {
            assert(t <= 2560);
            lemma_div_is_ordered(t as int, 2560, 256);
        }
        let c2 = (t / 256) as u8;
        acc[j] = nb;
        proof {
            lemma_fundamental_div_mod(t as int, 256);
            assert(acc@ =~= prev.update(j as int, nb));
            assert(acc@.take(j as int + 1) =~= prev.take(j as int).push(nb));
            assert(orig.take(j as int + 1) =~= orig.take(j as int).push(orig[j as int]));
            assert forall|k: int| 0 <= k < 32 - (j + 1) implies #[trigger] acc@.skip(
                j as int + 1,
            )[k] == orig.skip(j as int + 1)[k] by {
                assert(acc@.skip(j as int + 1)[k] == acc@[j + 1 + k]);
                assert(acc@[j + 1 + k] == prev[j + 1 + k]);
                assert(prev.skip(j as int)[1 + k] == prev[j + 1 + k]);
                assert(orig.skip(j as int)[1 + k] == orig[j + 1 + k]);
                assert(orig.skip(j as int + 1)[k] == orig[j + 1 + k]);
            }
            assert(acc@.skip(j as int + 1) =~= orig.skip(j as int + 1));
            lemma_le_val_snoc(prev.take(j as int), nb);
            lemma_le_val_snoc(orig.take(j as int), orig[j as int]);
            assert(le_val(prev.take(j as int)) + pow256(j as nat) * (nb as int) + pow256(
                (j + 1) as nat,
            ) * (c2 as int) == 10 * (le_val(orig.take(j as int)) + pow256(j as nat) * (
            orig[j as int] as int)) + d) by (nonlinear_arith)
                requires
                    le_val(prev.take(j as int)) + pow256(j as nat) * (c as int) == 10 * le_val(
                        orig.take(j as int),
                    ) + d,
                    (nb as int) + 256 * (c2 as int) == t,
                    t == (orig[j as int] as int) * 10 + c,
                    pow256((j + 1) as nat) == 256 * pow256(j as nat),
            ;
        }
        c = c2;
        j += 1;
    }
    proof {
        assert(acc@.take(32) =~= acc@);
        assert(orig.take(32) =~= orig);
    }
    c
}

/// Reverses 32 bytes: little-endian digits into their big-endian order.
fn rev32(acc: &[u8; 32]) -> (r: [u8; 32])
    ensures
        forall|i: int| 0 <= i < 32 ==> r@[i] == acc@[31 - i],
{
    let mut r = [0u8; 32];
    let mut i: usize = 0;
    while i < 32
        invariant
            i <= 32,
            r@.len() == 32,
            acc@.len() == 32,
            forall|j: int| 0 <= j < i ==> r@[j] == acc@[31 - j],
        decreases 32 - i,
    {
        r[i] = acc[31 - i];
        i += 1;
    }
    r
}

/// Parses numeric text into 32 big-endian bytes: `0x` and hex digits of
/// either case, or decimal text, denoting any value below 256 to the 32nd.
/// Anything else is rejected with `InvalidHex`.
pub fn parse_u256_text(s: &str) -> (r: Result<Uint256, TrialError>)
    ensures
        match r {
            Ok(u) => u256_text_ok(s@) && u.0@ == u256_bytes_of(s@),
            Err(e) => e == TrialError::InvalidHex && !u256_text_ok(s@),
        },
{
    let n = s.unicode_len();
    if n >= 2 && s.get_char(0) == '0' && s.get_char(1) == 'x' {
        if n == 2 {
            return Err(TrialError::InvalidHex);
        }
        let rest = s.substring_char(2, n);
        proof {
            assert(rest@ =~= s@.skip(2));
        }
        let digits = if rest.unicode_len() % 2 == 1 {
            let mut padded = "0".to_owned();
            padded.append(rest);
            proof {
                reveal_strlit("0");
                assert(padded@ =~= pad_even(s@.skip(2)));
            }
            padded
        } else {
            let owned = rest.to_owned();
            proof {
                assert(owned@ =~= pad_even(s@.skip(2)));
            }
            owned
        };
        let bytes = match crate::hexformat::hex_decode(digits.as_str()) {
            Some(v) => v,
            None => {
                return Err(TrialError::InvalidHex);
            },
        };
        let len = bytes.len();
        let mut z: usize = 0;
        while z < len && bytes[z] == 0
            invariant
                z <= len,
                len == bytes@.len(),
                forall|k: int| 0 <= k < z ==> bytes@[k] == 0,
            decreases len - z,
        {
            z += 1;
        }
        if len - z > 32 {
            proof {
                lemma_be_val_skip_zeros(bytes@, z as int);
                assert(bytes@.skip(z as int)[0] == bytes@[z as int]);
                lemma_be_val_lower(bytes@.skip(z as int));
                lemma_pow256_mono(32, (len - z - 1) as nat);
            }
            return Err(TrialError::InvalidHex);
        }
        let m = len - z;
        let mut acc = [0u8; 32];
        let mut j: usize = 0;
        while j < m
            invariant
                j <= m,
                m == len - z,
                z <= len,
                m <= 32,
                len == bytes@.len(),
                acc@.len() == 32,
                forall|k: int| 0 <= k < j ==> acc@[k] == bytes@[len - 1 - k],
                forall|k: int| j <= k < 32 ==> acc@[k] == 0,
            decreases m - j,
        {
            acc[j] = bytes[len - 1 - j];
            j += 1;
        }
        proof {
            lemma_le_val_zero_ext(acc@, m as int);
            assert(acc@.take(m as int) =~= bytes@.skip(z as int).reverse());
            lemma_le_val_reverse(bytes@.skip(z as int));
            lemma_be_val_skip_zeros(bytes@, z as int);
            lemma_be_val_bounds(bytes@.skip(z as int));
            lemma_pow256_mono(m as nat, 32);
            assert(le_val(acc@) == u256_value_of(s@));
        }
        let out = rev32(&acc);
        proof {
            lemma_le_val_be32(acc@, out@);
        }
        Ok(Uint256(out))
    } else {
        if n == 0 {
            return Err(TrialError::InvalidHex);
        }
        let mut acc = [0u8; 32];
        proof {
            lemma_le_val_zero_ext(acc@, 0);
            assert(acc@.take(0) =~= Seq::<u8>::empty());
            assert(le_val(Seq::<u8>::empty()) == 0);
            assert(s@.take(0) =~= Seq::<char>::empty());
            assert(dec_value(Seq::<char>::empty()) == 0);
        }
        let mut i: usize = 0;
        while i < n
            invariant
                i <= n,
                n == s@.len(),
                !is_hex_form(s@),
                acc@.len() == 32,
                forall|j: int| 0 <= j < i ==> 48 <= (#[trigger] s@[j]) as u32 <= 57,
                le_val(acc@) == dec_value(s@.take(i as int)),
            decreases n - i,
        {
            let ch = s.get_char(i);
            let dc = ch as u32;
            if dc < 48 || dc > 57 {
                return Err(TrialError::InvalidHex);
            }
            proof {
                assert(s@.take(i as int + 1).drop_last() =~= s@.take(i as int));
                assert(s@.take(i as int + 1).last() == s@[i as int]);
            }
            let ghost before = acc@;
            let carry = mul10_add(&mut acc, (dc - 48) as u8);
            if carry != 0 {
                proof {
                    lemma_le_val_bounds(acc@);
                    lemma_pow256_pos(32);
                    assert(pow256(32) * (carry as int) >= pow256(32)) by (nonlinear_arith)
                        requires
                            carry >= 1,
                            pow256(32) >= 1,
                    ;
                    assert(dec_value(s@.take(i as int + 1)) >= pow256(32));
                    if is_dec_text(s@) {
                        lemma_dec_value_prefix_monotonic(s@, i as int + 1);
                    }
                }
                return Err(TrialError::InvalidHex);
            }
            proof {
                assert(pow256(32) * 0int == 0) by (nonlinear_arith);
                assert(le_val(acc@) == 10 * le_val(before) + (dc - 48));
                assert(le_val(acc@) == dec_value(s@.take(i as int + 1)));
            }
            i += 1;
        }
        proof {
            assert(s@.take(n as int) =~= s@);
            lemma_le_val_bounds(acc@);
        }
        let out = rev32(&acc);
        proof {
            lemma_le_val_be32(acc@, out@);
        }
        Ok(Uint256(out))
    }
}

/// Parses an incoming token into its validated form, exactly when every
/// text field in it parses; the first malformed field names the error.
pub fn parse_token(st: &SerializableToken) -> (r: Result<TokenValue, TrialError>)
    ensures
        match r {
            Ok(tv) => token_parseable(*st) && parses_to(*st, tv),
            Err(e) => !token_parseable(*st) && (e == TrialError::InvalidAddress || e
                == TrialError::InvalidHex),
        },
    decreases *st,
{
    match st {
        SerializableToken::Address(s) => match parse_evm_address(s.as_str()) {
            Ok(a) => Ok(TokenValue::Address(a)),
            Err(e) => Err(e),
        },
        SerializableToken::FixedBytes(s) => {
            let stripped = crate::hexformat::strip_0x_prefix(s.as_str());
            match crate::hexformat::hex_decode(stripped) {
                Some(v) => Ok(TokenValue::FixedBytes(v)),
                None => Err(TrialError::InvalidHex),
            }
        },
        SerializableToken::Bytes(s) => {
            let stripped = crate::hexformat::strip_0x_prefix(s.as_str());
            match crate::hexformat::hex_decode(stripped) {
                Some(v) => Ok(TokenValue::Bytes(v)),
                None => Err(TrialError::InvalidHex),
            }
        },
        SerializableToken::Int(s) => match parse_u256_text(s.as_str()) {
            Ok(u) => Ok(TokenValue::Int(u)),
            Err(e) => Err(e),
        },
        SerializableToken::Uint(s) => match parse_u256_text(s.as_str()) {
            Ok(u) => Ok(TokenValue::Uint(u)),
            Err(e) => Err(e),
        },
        SerializableToken::Bool(b) => Ok(TokenValue::Bool(*b)),
        SerializableToken::String(s) => {
            let copy = s.as_str().to_owned();
            Ok(TokenValue::String(copy))
        },
        SerializableToken::FixedArray(v) => match parse_token_list(v) {
            Ok(out) => Ok(TokenValue::FixedArray(out)),
            Err(e) => Err(e),
        },
        SerializableToken::Array(v) => match parse_token_list(v) {
            Ok(out) => Ok(TokenValue::Array(out)),
            Err(e) => Err(e),
        },
        SerializableToken::Tuple(v) => match parse_token_list(v) {
            Ok(out) => Ok(TokenValue::Tuple(out)),
            Err(e) => Err(e),
        },
    }
}

/// Parses a list of incoming tokens, in order.
fn parse_token_list(v: &Vec<SerializableToken>) -> (r: Result<Vec<TokenValue>, TrialError>)
    ensures
        match r {
            Ok(out) => out@.len() == v@.len() && (forall|i: int|
                0 <= i < v@.len() ==> token_parseable(#[trigger] v@[i])) && (forall|i: int|
                0 <= i < v@.len() ==> parses_to(#[trigger] v@[i], out@[i])),
            Err(e) => !(forall|i: int| 0 <= i < v@.len() ==> token_parseable(#[trigger] v@[i]))
                && (e == TrialError::InvalidAddress || e == TrialError::InvalidHex),
        },
    decreases v@,
{
    let mut out: Vec<TokenValue> = Vec::new();
    let mut i: usize = 0;
    while i < v.len()
        invariant
            i <= v@.len(),
            out@.len() == i,
            forall|j: int| 0 <= j < i ==> token_parseable(#[trigger] v@[j]),
            forall|j: int| 0 <= j < i ==> parses_to(#[trigger] v@[j], out@[j]),
        decreases v@.len() - i,
    {
        match parse_token(&v[i]) {
            Ok(tv) => {
                out.push(tv);
            },
            Err(e) => {
                return Err(e);
            },
        }
        i += 1;
    }
    Ok(out)
}

/// Parses decimal text into a 128-bit value; rejects empty text, other
/// characters and values that do not fit.
pub fn parse_dec_u128_pub(s: &str) -> (r: Result<u128, TrialError>)
    ensures
        match r {
            Ok(x) => is_dec_text(s@) && dec_value(s@) < 0x100000000000000000000000000000000 && x
                == dec_value(s@),
            Err(e) => {
                &&& e == TrialError::InvalidHex
                &&& !(is_dec_text(s@) && dec_value(s@) < 0x100000000000000000000000000000000)
            },
        },
{
    parse_dec_u128(s)
}

/// Whether a validated value fits a declared parameter type: shapes agree,
/// fixed byte strings and fixed arrays have the declared size.
pub open spec fn matches_type(tv: TokenValue, k: SerializableParamType) -> bool
    decreases tv,
{
    match (tv, k) {
        (TokenValue::Address(_), SerializableParamType::Address) => true,
        (TokenValue::FixedBytes(b), SerializableParamType::FixedBytes(n)) => b@.len() == n,
        (TokenValue::Bytes(_), SerializableParamType::Bytes) => true,
        (TokenValue::Int(_), SerializableParamType::Int(_)) => true,
        (TokenValue::Uint(_), SerializableParamType::Uint(_)) => true,
        (TokenValue::Bool(_), SerializableParamType::Bool) => true,
        (TokenValue::String(_), SerializableParamType::String) => true,
        (TokenValue::FixedArray(v), SerializableParamType::FixedArray(t, n)) => v@.len() == n
            && forall|i: int| 0 <= i < v@.len() ==> matches_type(#[trigger] v@[i], *t),
        (TokenValue::Array(v), SerializableParamType::Array(t)) => forall|i: int|
            0 <= i < v@.len() ==> matches_type(#[trigger] v@[i], *t),
        (TokenValue::Tuple(v), SerializableParamType::Tuple(ts)) => v@.len() == ts@.len()
            && forall|i: int| 0 <= i < v@.len() ==> matches_type(#[trigger] v@[i], ts@[i]),
        _ => false,
    }
}

/// Whether a validated value fits a declared parameter type.
pub fn token_matches_type(tv: &TokenValue, k: &SerializableParamType) -> (r: bool)
    ensures
        r == matches_type(*tv, *k),
    decreases *tv,
{
    match (tv, k) {
        (TokenValue::Address(_), SerializableParamType::Address) => true,
        (TokenValue::FixedBytes(b), SerializableParamType::FixedBytes(n)) => b.len() == *n,
        (TokenValue::Bytes(_), SerializableParamType::Bytes) => true,
        (TokenValue::Int(_), SerializableParamType::Int(_)) => true,
        (TokenValue::Uint(_), SerializableParamType::Uint(_)) => true,
        (TokenValue::Bool(_), SerializableParamType::Bool) => true,
        (TokenValue::String(_), SerializableParamType::String) => true,
        (TokenValue::FixedArray(v), SerializableParamType::FixedArray(t, n)) => v.len() == *n
            && all_match_one(v, t),
        (TokenValue::Array(v), SerializableParamType::Array(t)) => all_match_one(v, t),
        (TokenValue::Tuple(v), SerializableParamType::Tuple(ts)) => v.len() == ts.len()
            && all_match_pairwise(v, ts),
        _ => false,
    }
}

/// Whether each element fits the declared type at its position.
fn all_match_pairwise(v: &Vec<TokenValue>, ts: &Vec<SerializableParamType>) -> (r: bool)
    requires
        v@.len() == ts@.len(),
    ensures
        r == forall|i: int| 0 <= i < v@.len() ==> matches_type(#[trigger] v@[i], ts@[i]),
    decreases v@,
{
    let mut i: usize = 0;
    while i < v.len()
        invariant
            i <= v@.len(),
            v@.len() == ts@.len(),
            forall|j: int| 0 <= j < i ==> matches_type(#[trigger] v@[j], ts@[j]),
        decreases v@.len() - i,
    {
        if !token_matches_type(&v[i], &ts[i]) {
            return false;
        }
        i += 1;
    }
    true
}

/// Whether every element fits one declared element type.
fn all_match_one(v: &Vec<TokenValue>, t: &SerializableParamType) -> (r: bool)
    ensures
        r == forall|i: int| 0 <= i < v@.len() ==> matches_type(#[trigger] v@[i], *t),
    decreases v@,
{
    let mut i: usize = 0;
    while i < v.len()
        invariant
            i <= v@.len(),
            forall|j: int| 0 <= j < i ==> matches_type(#[trigger] v@[j], *t),
        decreases v@.len() - i,
    {
        if !token_matches_type(&v[i], t) {
            return false;
        }
        i += 1;
    }
    true
}

/// Whether the argument list fits the declared parameters' kinds, pairwise.
pub fn tokens_match_params(args: &Vec<TokenValue>, params: &Vec<SerializableParam>) -> (r: bool)
    ensures
        r == (args@.len() == params@.len() && forall|i: int|
            0 <= i < args@.len() ==> matches_type(#[trigger] args@[i], params@[i].kind)),
{
    if args.len() != params.len() {
        return false;
    }
    let mut i: usize = 0;
    while i < args.len()
        invariant
            i <= args@.len(),
            args@.len() == params@.len(),
            forall|j: int| 0 <= j < i ==> matches_type(#[trigger] args@[j], params@[j].kind),
        decreases args@.len() - i,
    {
        if !token_matches_type(&args[i], &params[i].kind) {
            return false;
        }
        i += 1;
    }
    true
}

/// Parses a list of incoming tokens, in order: every token must parse.
pub fn parse_token_list_pub(v: &Vec<SerializableToken>) -> (r: Result<Vec<TokenValue>, TrialError>)
    ensures
        match r {
            Ok(out) => out@.len() == v@.len() && (forall|i: int|
                0 <= i < v@.len() ==> token_parseable(#[trigger] v@[i])) && (forall|i: int|
                0 <= i < v@.len() ==> parses_to(#[trigger] v@[i], out@[i])),
            Err(e) => !(forall|i: int| 0 <= i < v@.len() ==> token_parseable(#[trigger] v@[i]))
                && (e == TrialError::InvalidAddress || e == TrialError::InvalidHex),
        },
{
    parse_token_list(v)
}

/// Whether what an incoming token would parse into fits a declared kind,
/// stated over the wire form alone.
pub open spec fn parsed_matches_kind(st: SerializableToken, k: SerializableParamType) -> bool
    decreases st,
{
    match (st, k) {
        (SerializableToken::Address(_), SerializableParamType::Address) => true,
        (SerializableToken::FixedBytes(s), SerializableParamType::FixedBytes(n)) => hex_bytes_of(
            strip_0x(s@),
        ).len() == n,
        (SerializableToken::Bytes(_), SerializableParamType::Bytes) => true,
        (SerializableToken::Int(_), SerializableParamType::Int(_)) => true,
        (SerializableToken::Uint(_), SerializableParamType::Uint(_)) => true,
        (SerializableToken::Bool(_), SerializableParamType::Bool) => true,
        (SerializableToken::String(_), SerializableParamType::String) => true,
        (SerializableToken::FixedArray(v), SerializableParamType::FixedArray(t, n)) => v@.len()
            == n && forall|i: int|
            0 <= i < v@.len() ==> parsed_matches_kind(#[trigger] v@[i], *t),
        (SerializableToken::Array(v), SerializableParamType::Array(t)) => forall|i: int|
            0 <= i < v@.len() ==> parsed_matches_kind(#[trigger] v@[i], *t),
        (SerializableToken::Tuple(v), SerializableParamType::Tuple(ts)) => v@.len() == ts@.len()
            && forall|i: int| 0 <= i < v@.len() ==> parsed_matches_kind(#[trigger] v@[i], ts@[i]),
        _ => false,
    }
}

/// Whether every argument would parse into a value fitting its declared
/// kind, pairwise.
pub open spec fn all_parsed_match(
    args: Seq<SerializableToken>,
    kinds: Seq<SerializableParamType>,
) -> bool {
    args.len() == kinds.len() && forall|i: int|
        0 <= i < args.len() ==> parsed_matches_kind(#[trigger] args[i], kinds[i])
}

/// A parsed value fits a kind exactly when its wire form would.
pub proof fn lemma_parse_match_congruence(st: SerializableToken, tv: TokenValue,
    k: SerializableParamType)
    requires
        parses_to(st, tv),
    ensures
        matches_type(tv, k) == parsed_matches_kind(st, k),
    decreases st,
{
    match (st, tv) {
        (SerializableToken::FixedArray(va), TokenValue::FixedArray(vb)) => {
            if k is FixedArray {
                let t = k->FixedArray_0;
                assert forall|i: int| 0 <= i < va@.len() implies matches_type(
                    #[trigger] vb@[i],
                    *t,
                ) == parsed_matches_kind(va@[i], *t) by {
                    assert(parses_to(va@[i], vb@[i]));
                    lemma_parse_match_congruence(va@[i], vb@[i], *t);
                }
            }
        },
        (SerializableToken::Array(va), TokenValue::Array(vb)) => {
            if k is Array {
                let t = k->Array_0;
                assert forall|i: int| 0 <= i < va@.len() implies matches_type(
                    #[trigger] vb@[i],
                    *t,
                ) == parsed_matches_kind(va@[i], *t) by {
                    assert(parses_to(va@[i], vb@[i]));
                    lemma_parse_match_congruence(va@[i], vb@[i], *t);
                }
            }
        },
        (SerializableToken::Tuple(va), TokenValue::Tuple(vb)) => {
            if k is Tuple {
                let ts = k->Tuple_0;
                if va@.len() == ts@.len() {
                    assert forall|i: int| 0 <= i < va@.len() implies matches_type(
                        #[trigger] vb@[i],
                        ts@[i],
                    ) == parsed_matches_kind(va@[i], ts@[i]) by {
                        assert(parses_to(va@[i], vb@[i]));
                        lemma_parse_match_congruence(va@[i], vb@[i], ts@[i]);
                    }
                }
            }
        },
        _ => {},
    }
}

} // verus!
