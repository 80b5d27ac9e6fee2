//! Hex text: parsing addresses and byte strings, and formatting bytes.
//!
//! The EVM side of the policy identifies contracts by 20-byte addresses that
//! arrive as hex text in either case, with or without a `0x` prefix. They are
//! normalized to raw bytes here, so that equal addresses written differently
//! match the same allowlist entry.

use vstd::prelude::*;

use crate::errors::TrialError;

verus! {

/// A 20-byte EVM account or contract address.
#[derive(Clone, Copy, Debug, PartialEq, Eq)]
pub struct EvmAddress(pub [u8; 20]);

impl EvmAddress {
    /// The address as a byte sequence.
    pub open spec fn bytes(self) -> Seq<u8> {
        self.0@
    }
}

/// Compares two addresses by their bytes.
pub fn evm_address_eq(a: &EvmAddress, b: &EvmAddress) -> (r: bool)
    ensures
        r == (a.bytes() == b.bytes()),
{
    let mut i: usize = 0;
    while i < 20
        invariant
            i <= 20,
            forall|j: int| 0 <= j < i ==> a.0@[j] == b.0@[j],
        decreases 20 - i,
    {
        if a.0[i] != b.0[i] {
            return false;
        }
        i += 1;
    }
    proof {
        assert(a.bytes() =~= b.bytes());
    }
    true
}

/// Whether `c` is a hex digit, upper or lower case.
pub open spec fn is_hex_digit(c: char) -> bool {
    (48 <= c as u32 <= 57) || (97 <= c as u32 <= 102) || (65 <= c as u32 <= 70)
}

/// The value of a hex digit; case does not matter.
pub open spec fn hex_digit_value(c: char) -> u8 {
    if 48 <= c as u32 <= 57 {
        (c as u32 - 48) as u8
    } else if 97 <= c as u32 <= 102 {
        (c as u32 - 87) as u8
    } else {
        (c as u32 - 55) as u8
    }
}

/// Whether `s` is well-formed hex text: even length, hex digits only.
pub open spec fn valid_hex_str(s: Seq<char>) -> bool {
    s.len() % 2 == 0 && (forall|i: int| 0 <= i < s.len() ==> is_hex_digit(#[trigger] s[i]))
}

/// The bytes denoted by well-formed hex text, two digits per byte.
pub open spec fn hex_bytes_of(s: Seq<char>) -> Seq<u8> {
    Seq::new(
        (s.len() / 2) as nat,
        |i: int| (16 * hex_digit_value(s[2 * i]) + hex_digit_value(s[2 * i + 1])) as u8,
    )
}

/// The lower-case hex digit for a value below sixteen.
pub open spec fn hex_digit_char(n: u8) -> char {
    if n < 10 {
        ((n + 48) as u32) as char
    } else {
        ((n + 87) as u32) as char
    }
}

/// The lower-case hex text denoting `b`, two digits per byte.
pub open spec fn hex_str_of(b: Seq<u8>) -> Seq<char> {
    Seq::new(
        (2 * b.len()) as nat,
        |i: int|
            if i % 2 == 0 {
                hex_digit_char(b[i / 2] / 16)
            } else {
                hex_digit_char(b[i / 2] % 16)
            },
    )
}

/// Relies on `hex::decode`: accepts hex digits of either case, two per
/// byte, and rejects odd lengths and other characters.
#[verifier::external_body]
pub(crate) fn hex_decode(s: &str) -> (r: Option<Vec<u8>>)
    ensures
        match r {
            Some(v) => valid_hex_str(s@) && v@ == hex_bytes_of(s@),
            None => !valid_hex_str(s@),
        },
{
    hex::decode(s).ok()
}

/// Relies on `hex::encode`: two lower-case hex digits for each byte.
#[verifier::external_body]
fn hex_encode(b: &[u8]) -> (r: String)
    ensures
        r@ == hex_str_of(b@),
{
    hex::encode(b)
}

/// `s` without one leading `0x`, if it has one.
pub open spec fn strip_0x(s: Seq<char>) -> Seq<char> {
    if s.len() >= 2 && s[0] == '0' && s[1] == 'x' {
        s.skip(2)
    } else {
        s
    }
}

/// Removes one leading `0x` from `s`, if present.
pub(crate) fn strip_0x_prefix(s: &str) -> (r: &str)
    ensures
        r@ == strip_0x(s@),
{
    let n = s.unicode_len();
    if n >= 2 && s.get_char(0) == '0' && s.get_char(1) == 'x' {
        let r = s.substring_char(2, n);
        proof {
            assert(r@ =~= strip_0x(s@));
        }
        r
    } else {
        s
    }
}

/// Whether `s` denotes a 20-byte address: an optional `0x` prefix and then
/// exactly forty hex digits of either case.
pub open spec fn parses_as_address(s: Seq<char>) -> bool {
    valid_hex_str(strip_0x(s)) && hex_bytes_of(strip_0x(s)).len() == 20
}

/// The address denoted by `s`, when `parses_as_address(s)` holds.
pub open spec fn address_bytes_of(s: Seq<char>) -> Seq<u8> {
    hex_bytes_of(strip_0x(s))
}

/// Copies a 20-byte vector into an array.
fn vec_to_address(v: &Vec<u8>) -> (r: EvmAddress)
    requires
        v@.len() == 20,
    ensures
        r.bytes() == v@,
{
    let mut a = [0u8; 20];
    let mut i: usize = 0;
    while i < 20
        invariant
            i <= 20,
            v@.len() == 20,
            forall|j: int| 0 <= j < i ==> a@[j] == v@[j],
        decreases 20 - i,
    {
        a[i] = v[i];
        i += 1;
    }
    proof {
        assert(a@ =~= v@);
    }
    EvmAddress(a)
}

/// Parses hex text, with an optional `0x` prefix and in either case, into
/// a 20-byte address. Rejects everything else with `InvalidAddress`, so
/// that differently written forms of one address normalize to the same
/// bytes.
pub fn parse_evm_address(s: &str) -> (r: Result<EvmAddress, TrialError>)
    ensures
        match r {
            Ok(a) => parses_as_address(s@) && a.bytes() == address_bytes_of(s@),
            Err(e) => e == TrialError::InvalidAddress && !parses_as_address(s@),
        },
{
    let stripped = strip_0x_prefix(s);
    match hex_decode(stripped) {
        Some(v) => {
            if v.len() == 20 {
                Ok(vec_to_address(&v))
            } else {
                Err(TrialError::InvalidAddress)
            }
        },
        None => Err(TrialError::InvalidAddress),
    }
}

/// Formats an address as `0x` followed by forty lower-case hex digits.
pub fn convert_address_to_hex_string(address: &EvmAddress) -> (r: String)
    ensures
        r@ == "0x"@ + hex_str_of(address.bytes()),
{
    let mut out = "0x".to_owned();
    let digits = hex_encode(address.0.as_slice());
    out.append(digits.as_str());
    out
}

} // verus!
