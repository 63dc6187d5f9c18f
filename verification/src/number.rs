//! Numbers of the language: 64-bit binary floating point, held as bit
//! patterns. Sign, comparison and equality are decided here on the bits;
//! arithmetic, reading and printing are the host's part.

use vstd::prelude::*;

verus! {

pub const SIGN_BIT: u64 = 0x8000_0000_0000_0000;

pub const EXPONENT_BITS: u64 = 0x7ff0_0000_0000_0000;

pub const FRACTION_BITS: u64 = 0x000f_ffff_ffff_ffff;

/// Whether the bits hold no number (the exponent is all ones and the
/// fraction is not zero).
pub open spec fn is_nan(bits: u64) -> bool {
    (bits & EXPONENT_BITS) == EXPONENT_BITS && (bits & FRACTION_BITS) != 0
}

/// The bits without the sign.
pub open spec fn magnitude(bits: u64) -> u64 {
    bits & !SIGN_BIT
}

pub open spec fn is_negative(bits: u64) -> bool {
    (bits & SIGN_BIT) != 0
}

/// An integer that orders the numbers as their values are ordered:
/// the magnitude, negated under a sign. Both zeros get 0.
pub open spec fn order_key(bits: u64) -> int {
    if is_negative(bits) {
        -(magnitude(bits) as int)
    } else {
        magnitude(bits) as int
    }
}

/// `a == b` as numbers: nothing equals what is no number, and the two
/// zeros are equal.
pub open spec fn equal_spec(a: u64, b: u64) -> bool {
    !is_nan(a) && !is_nan(b) && order_key(a) == order_key(b)
}

/// `a < b` as numbers: false if either is no number.
pub open spec fn less_spec(a: u64, b: u64) -> bool {
    !is_nan(a) && !is_nan(b) && order_key(a) < order_key(b)
}

/// `a <= b` as numbers: false if either is no number.
pub open spec fn less_equal_spec(a: u64, b: u64) -> bool {
    !is_nan(a) && !is_nan(b) && order_key(a) <= order_key(b)
}

/// The bits of `-x` for the bits of `x`: the sign flipped.
pub open spec fn negate_spec(bits: u64) -> u64 {
    bits ^ SIGN_BIT
}

pub fn nan(bits: u64) -> (r: bool)
    ensures
        r == is_nan(bits),
{
    (bits & EXPONENT_BITS) == EXPONENT_BITS && (bits & FRACTION_BITS) != 0
}

pub fn negate(bits: u64) -> (r: u64)
    ensures
        r == negate_spec(bits),
{
    bits ^ SIGN_BIT
}

/// Compares two numbers neither of which is a NaN: -1, 0 or 1 as the
/// first is less than, equal to or greater than the second.
fn compare(a: u64, b: u64) -> (r: i8)
    ensures
        r == if order_key(a) < order_key(b) {
            -1i8
        } else if order_key(a) == order_key(b) {
            0i8
        } else {
            1i8
        },
{
    let ma = a & !SIGN_BIT;
    let mb = b & !SIGN_BIT;
    let na = (a & SIGN_BIT) != 0;
    let nb = (b & SIGN_BIT) != 0;
    if na && nb {
        if ma > mb {
            -1
        } else if ma == mb {
            0
        } else {
            1
        }
    } else if na {
        if ma == 0 && mb == 0 {
            0
        } else {
            -1
        }
    } else if nb {
        if ma == 0 && mb == 0 {
            0
        } else {
            1
        }
    } else {
        if ma < mb {
            -1
        } else if ma == mb {
            0
        } else {
            1
        }
    }
}

pub fn equal(a: u64, b: u64) -> (r: bool)
    ensures
        r == equal_spec(a, b),
{
    !nan(a) && !nan(b) && compare(a, b) == 0
}

pub fn less(a: u64, b: u64) -> (r: bool)
    ensures
        r == less_spec(a, b),
{
    !nan(a) && !nan(b) && compare(a, b) < 0
}

pub fn less_equal(a: u64, b: u64) -> (r: bool)
    ensures
        r == less_equal_spec(a, b),
{
    !nan(a) && !nan(b) && compare(a, b) <= 0
}

pub fn greater(a: u64, b: u64) -> (r: bool)
    ensures
        r == less_spec(b, a),
{
    less(b, a)
}

pub fn greater_equal(a: u64, b: u64) -> (r: bool)
    ensures
        r == less_equal_spec(b, a),
{
    less_equal(b, a)
}

/// Every number equals itself, unless it is no number.
pub proof fn lemma_equal_reflexive(a: u64)
    ensures
        equal_spec(a, a) == !is_nan(a),
{
}

/// Negating twice gives the number back.
pub proof fn lemma_negate_twice(a: u64)
    ensures
        negate_spec(negate_spec(a)) == a,
{
    assert((a ^ 0x8000_0000_0000_0000u64) ^ 0x8000_0000_0000_0000u64 == a) by (bit_vector);
}

} // verus!
