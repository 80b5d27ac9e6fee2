//! Base-256 positional values: what byte strings denote as numbers, in
//! little- and big-endian reading, with the digit-extraction facts the
//! numeric parsers and encoders rest on.

use vstd::prelude::*;

use vstd::arithmetic::div_mod::{lemma_div_denominator, lemma_div_is_ordered,
    lemma_div_multiples_vanish_fancy, lemma_mod_multiples_vanish, lemma_small_mod};

verus! {

/// 256 to the `k`th.
pub open spec fn pow256(k: nat) -> int
    decreases k,
{
    if k == 0 {
        1
    } else {
        256 * pow256((k - 1) as nat)
    }
}

/// Powers of 256 are positive.
pub proof fn lemma_pow256_pos(k: nat)
    ensures
        pow256(k) >= 1,
    decreases k,
{
    if k > 0 {
        lemma_pow256_pos((k - 1) as nat);
        assert(256 * pow256((k - 1) as nat) >= 256) by (nonlinear_arith)
            requires
                pow256((k - 1) as nat) >= 1,
        ;
    }
}

/// Powers of 256 grow with the exponent.
pub proof fn lemma_pow256_mono(a: nat, b: nat)
    requires
        a <= b,
    ensures
        pow256(a) <= pow256(b),
    decreases b,
{
    if a < b {
        lemma_pow256_mono(a, (b - 1) as nat);
        lemma_pow256_pos((b - 1) as nat);
        assert(256 * pow256((b - 1) as nat) >= pow256((b - 1) as nat)) by (nonlinear_arith)
            requires
                pow256((b - 1) as nat) >= 1,
        ;
    }
}

/// The value of little-endian base-256 digits: the first byte is least
/// significant.
pub open spec fn le_val(b: Seq<u8>) -> int
    decreases b.len(),
{
    if b.len() == 0 {
        0
    } else {
        b[0] + 256 * le_val(b.drop_first())
    }
}

/// The value of big-endian base-256 digits: the first byte is most
/// significant.
pub open spec fn be_val(b: Seq<u8>) -> int
    decreases b.len(),
{
    if b.len() == 0 {
        0
    } else {
        b[0] * pow256((b.len() - 1) as nat) + be_val(b.drop_first())
    }
}

/// The 32 big-endian bytes of a value below 256 to the 32nd.
pub open spec fn be32_of_int(v: int) -> Seq<u8> {
    Seq::new(32, |i: int| ((v / pow256((31 - i) as nat)) % 256) as u8)
}

/// A little-endian reading lies between zero and 256 to the length.
pub proof fn lemma_le_val_bounds(b: Seq<u8>)
    ensures
        0 <= le_val(b) < pow256(b.len()),
    decreases b.len(),
{
    lemma_pow256_pos(b.len());
    if b.len() > 0 {
        lemma_le_val_bounds(b.drop_first());
        assert(0 <= b[0] + 256 * le_val(b.drop_first()) < 256 * pow256(
            (b.len() - 1) as nat,
        )) by (nonlinear_arith)
            requires
                0 <= b[0] < 256,
                0 <= le_val(b.drop_first()) < pow256((b.len() - 1) as nat),
        ;
    }
}

/// Appending a byte adds it at the next position's weight.
pub proof fn lemma_le_val_snoc(b: Seq<u8>, x: u8)
    ensures
        le_val(b.push(x)) == le_val(b) + pow256(b.len()) * x,
    decreases b.len(),
{
    if b.len() == 0 {
        assert(b.push(x)[0] == x);
        assert(b.push(x).drop_first() =~= Seq::<u8>::empty());
        assert(le_val(Seq::<u8>::empty()) == 0);
        assert(le_val(b) == 0);
        assert(le_val(b.push(x)) == x);
        assert(pow256(0) == 1);
        assert(pow256(b.len()) * x == x) by (nonlinear_arith)
            requires
                pow256(b.len()) == 1,
        ;
    } else {
        assert(b.push(x)[0] == b[0]);
        assert(b.push(x).drop_first() =~= b.drop_first().push(x));
        lemma_le_val_snoc(b.drop_first(), x);
        assert(b[0] + 256 * (le_val(b.drop_first()) + pow256((b.len() - 1) as nat) * x) == (b[0]
            + 256 * le_val(b.drop_first())) + (256 * pow256((b.len() - 1) as nat)) * x) by (
        nonlinear_arith);
    }
}

/// Each byte is the digit of its position: divide by the position's weight,
/// reduce by the base.
pub proof fn lemma_le_val_digit(b: Seq<u8>, j: int)
    requires
        0 <= j < b.len(),
    ensures
        (le_val(b) / pow256(j as nat)) % 256 == b[j],
    decreases j,
{
    lemma_le_val_bounds(b.drop_first());
    let r = le_val(b.drop_first());
    if j == 0 {
        assert(le_val(b) / pow256(0) == le_val(b)) by {
            lemma_le_val_bounds(b);
            lemma_div_multiples_vanish_fancy(le_val(b), 0, 1);
            assert(1 * le_val(b) + 0 == le_val(b)) by (nonlinear_arith);
        }
        lemma_mod_multiples_vanish(r, b[0] as int, 256);
        assert(256 * r + b[0] == le_val(b));
        lemma_small_mod(b[0] as nat, 256);
    } else {
        assert(le_val(b) / 256 == r) by {
            lemma_div_multiples_vanish_fancy(r, b[0] as int, 256);
            assert(256 * r + b[0] == le_val(b));
        }
        lemma_pow256_pos((j - 1) as nat);
        lemma_le_val_bounds(b);
        lemma_div_denominator(le_val(b), 256, pow256((j - 1) as nat));
        assert(256 * pow256((j - 1) as nat) == pow256(j as nat));
        lemma_le_val_digit(b.drop_first(), j - 1);
        assert(b.drop_first()[j - 1] == b[j]);
    }
}

/// The little-endian reading of 32 bytes is exactly what its 32 big-endian
/// digits denote: reversing the bytes moves between the two readings.
pub proof fn lemma_le_val_be32(acc: Seq<u8>, out: Seq<u8>)
    requires
        acc.len() == 32,
        out.len() == 32,
        forall|i: int| 0 <= i < 32 ==> out[i] == acc[31 - i],
    ensures
        out == be32_of_int(le_val(acc)),
{
    assert forall|i: int| 0 <= i < 32 implies out[i] == be32_of_int(le_val(acc))[i] by {
        lemma_le_val_digit(acc, 31 - i);
    }
    assert(out =~= be32_of_int(le_val(acc)));
}

/// Reversing the bytes swaps the readings.
pub proof fn lemma_le_val_reverse(b: Seq<u8>)
    ensures
        le_val(b.reverse()) == be_val(b),
    decreases b.len(),
{
    if b.len() > 0 {
        lemma_le_val_reverse(b.drop_first());
        assert(b.reverse() =~= b.drop_first().reverse().push(b[0]));
        lemma_le_val_snoc(b.drop_first().reverse(), b[0]);
        assert(b.drop_first().reverse().len() == b.len() - 1);
        assert(pow256((b.len() - 1) as nat) * b[0] == b[0] * pow256((b.len() - 1) as nat)) by (
        nonlinear_arith);
    }
}

/// A big-endian reading lies between zero and 256 to the length.
pub proof fn lemma_be_val_bounds(b: Seq<u8>)
    ensures
        0 <= be_val(b) < pow256(b.len()),
{
    lemma_le_val_reverse(b);
    assert(b.reverse().len() == b.len());
    lemma_le_val_bounds(b.reverse());
}

/// Leading zero bytes do not change a big-endian reading.
pub proof fn lemma_be_val_skip_zeros(b: Seq<u8>, k: int)
    requires
        0 <= k <= b.len(),
        forall|i: int| 0 <= i < k ==> b[i] == 0,
    ensures
        be_val(b) == be_val(b.skip(k)),
    decreases k,
{
    if k > 0 {
        assert(b[0] == 0);
        assert(b[0] * pow256((b.len() - 1) as nat) == 0) by (nonlinear_arith)
            requires
                b[0] == 0,
        ;
        assert forall|i: int| 0 <= i < k - 1 implies b.drop_first()[i] == 0 by {
            assert(b.drop_first()[i] == b[i + 1]);
        }
        lemma_be_val_skip_zeros(b.drop_first(), k - 1);
        assert(b.drop_first().skip(k - 1) =~= b.skip(k));
    } else {
        assert(b.skip(0) =~= b);
    }
}

/// A big-endian reading with a non-zero first byte reaches its position's
/// weight.
pub proof fn lemma_be_val_lower(b: Seq<u8>)
    requires
        b.len() >= 1,
        b[0] >= 1,
    ensures
        be_val(b) >= pow256((b.len() - 1) as nat),
{
    lemma_be_val_bounds(b.drop_first());
    lemma_pow256_pos((b.len() - 1) as nat);
    assert(b[0] * pow256((b.len() - 1) as nat) >= pow256((b.len() - 1) as nat)) by (
    nonlinear_arith)
        requires
            b[0] >= 1,
            pow256((b.len() - 1) as nat) >= 1,
    ;
}

/// Trailing zero bytes do not change a little-endian reading.
pub proof fn lemma_le_val_zero_ext(b: Seq<u8>, k: int)
    requires
        0 <= k <= b.len(),
        forall|i: int| k <= i < b.len() ==> b[i] == 0,
    ensures
        le_val(b) == le_val(b.take(k)),
    decreases b.len() - k,
{
    if k < b.len() {
        lemma_le_val_zero_ext(b, k + 1);
        assert(b.take(k + 1) =~= b.take(k).push(b[k]));
        lemma_le_val_snoc(b.take(k), b[k]);
        assert(pow256(b.take(k).len()) * b[k] == 0) by (nonlinear_arith)
            requires
                b[k] == 0,
        ;
    } else {
        assert(b.take(k) =~= b);
    }
}

} // verus!
