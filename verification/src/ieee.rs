//! IEEE-754 binary64 values read through their bit patterns.
//!
//! A coordinate, a measurement or a grid value is an `f64` wherever it is computed; the library
//! carries it as the `u64` that `f64::to_bits` yields and decides everything it needs (equality,
//! sign, NaN-ness, finiteness, the total order) from those bits alone.
use vstd::prelude::*;

verus! {

/// The sign bit.
pub open spec fn sign_mask() -> u64 {
    0x8000_0000_0000_0000u64
}

/// Every bit but the sign.
pub open spec fn magnitude_mask() -> u64 {
    0x7fff_ffff_ffff_ffffu64
}

/// The eleven exponent bits, in place.
pub open spec fn exponent_mask() -> u64 {
    0x7ff0_0000_0000_0000u64
}

/// The fifty-two fraction bits.
pub open spec fn fraction_mask() -> u64 {
    0x000f_ffff_ffff_ffffu64
}

/// The value is a NaN: all exponent bits set and a nonzero fraction.
pub open spec fn is_nan(bits: u64) -> bool {
    bits & exponent_mask() == exponent_mask() && bits & fraction_mask() != 0
}

/// The value is finite: not every exponent bit is set (neither an infinity nor a NaN).
pub open spec fn is_finite(bits: u64) -> bool {
    bits & exponent_mask() != exponent_mask()
}

/// The value is positive or negative zero.
pub open spec fn is_zero(bits: u64) -> bool {
    bits & magnitude_mask() == 0
}

/// The sign bit is set.
pub open spec fn is_sign_negative(bits: u64) -> bool {
    bits & sign_mask() != 0
}

/// IEEE-754 equality, the meaning of `==` on two `f64`: no NaN equals anything, the two zeros
/// equal each other, and otherwise equal values have equal bits.
pub open spec fn float_eq(a: u64, b: u64) -> bool {
    !is_nan(a) && !is_nan(b) && (a == b || (is_zero(a) && is_zero(b)))
}

/// `value < 0.0`.
pub open spec fn is_less_than_zero(bits: u64) -> bool {
    is_sign_negative(bits) && !is_zero(bits) && !is_nan(bits)
}

/// `value > 0.0`.
pub open spec fn is_greater_than_zero(bits: u64) -> bool {
    !is_sign_negative(bits) && !is_zero(bits) && !is_nan(bits)
}

/// The key `f64::total_cmp` orders by: the bits read as a two's-complement integer after the
/// magnitude bits of a negative value are flipped, so that the order runs from negative NaN
/// through the negative numbers, `-0.0`, `+0.0`, the positive numbers, to positive NaN.
pub open spec fn total_order_key(bits: u64) -> int {
    if bits < sign_mask() {
        bits as int
    } else {
        (bits ^ magnitude_mask()) as int - 0x1_0000_0000_0000_0000int
    }
}

/// `a.total_cmp(&b).is_gt()`.
pub open spec fn total_gt(a: u64, b: u64) -> bool {
    total_order_key(a) > total_order_key(b)
}

/// The bits of `value.abs()`: the sign cleared.
pub open spec fn abs_bits(bits: u64) -> u64 {
    bits & magnitude_mask()
}

/// Whether the value is a NaN.
pub fn nan(bits: u64) -> (result: bool)
    ensures
        result == is_nan(bits),
{
    bits & 0x7ff0_0000_0000_0000u64 == 0x7ff0_0000_0000_0000u64 && bits & 0x000f_ffff_ffff_ffffu64 != 0
}

/// Whether the value is finite.
pub fn finite(bits: u64) -> (result: bool)
    ensures
        result == is_finite(bits),
{
    bits & 0x7ff0_0000_0000_0000u64 != 0x7ff0_0000_0000_0000u64
}

/// `a == b` on the two `f64` these bits encode.
pub fn equal(a: u64, b: u64) -> (result: bool)
    ensures
        result == float_eq(a, b),
{
    !nan(a) && !nan(b) && (a == b || (a & 0x7fff_ffff_ffff_ffffu64 == 0 && b & 0x7fff_ffff_ffff_ffffu64
        == 0))
}

/// `value < 0.0`.
pub fn less_than_zero(bits: u64) -> (result: bool)
    ensures
        result == is_less_than_zero(bits),
{
    bits & 0x8000_0000_0000_0000u64 != 0 && bits & 0x7fff_ffff_ffff_ffffu64 != 0 && !nan(bits)
}

/// `value > 0.0`.
pub fn greater_than_zero(bits: u64) -> (result: bool)
    ensures
        result == is_greater_than_zero(bits),
{
    bits & 0x8000_0000_0000_0000u64 == 0 && bits & 0x7fff_ffff_ffff_ffffu64 != 0 && !nan(bits)
}

/// The bits of `value.abs()`.
pub fn abs(bits: u64) -> (result: u64)
    ensures
        result == abs_bits(bits),
{
    bits & 0x7fff_ffff_ffff_ffffu64
}

/// `a.total_cmp(&b).is_gt()`.
pub fn total_greater(a: u64, b: u64) -> (result: bool)
    ensures
        result == total_gt(a, b),
{
    let a_negative = a >= 0x8000_0000_0000_0000u64;
    let b_negative = b >= 0x8000_0000_0000_0000u64;
    if !a_negative && !b_negative {
        a > b
    } else if !a_negative && b_negative {
        proof {
            assert((b ^ 0x7fff_ffff_ffff_ffffu64) < 0x1_0000_0000_0000_0000int) by (bit_vector);
        }
        true
    } else if a_negative && !b_negative {
        proof {
            assert((a ^ 0x7fff_ffff_ffff_ffffu64) < 0x1_0000_0000_0000_0000int) by (bit_vector);
        }
        false
    } else {
        proof {
            assert(a >= 0x8000_0000_0000_0000u64 && b >= 0x8000_0000_0000_0000u64 ==> ((a
                ^ 0x7fff_ffff_ffff_ffffu64) > (b ^ 0x7fff_ffff_ffff_ffffu64) <==> a < b))
                by (bit_vector);
        }
        a < b
    }
}

/// The total order is a strict order: irreflexive and transitive.
pub proof fn lemma_total_gt_is_strict(a: u64, b: u64, c: u64)
    ensures
        !total_gt(a, a),
        total_gt(a, b) && total_gt(b, c) ==> total_gt(a, c),
        total_gt(a, b) ==> !total_gt(b, a),
{
}

/// The total order distinguishes every pair of bit patterns.
pub proof fn lemma_total_order_key_is_injective(a: u64, b: u64)
    ensures
        total_order_key(a) == total_order_key(b) ==> a == b,
{
    if a >= 0x8000_0000_0000_0000u64 && b >= 0x8000_0000_0000_0000u64 {
        assert((a ^ 0x7fff_ffff_ffff_ffffu64) == (b ^ 0x7fff_ffff_ffff_ffffu64) ==> a == b)
            by (bit_vector);
    }
    if a < 0x8000_0000_0000_0000u64 && b >= 0x8000_0000_0000_0000u64 {
        assert((b ^ 0x7fff_ffff_ffff_ffffu64) < 0x1_0000_0000_0000_0000int) by (bit_vector);
    }
    if b < 0x8000_0000_0000_0000u64 && a >= 0x8000_0000_0000_0000u64 {
        assert((a ^ 0x7fff_ffff_ffff_ffffu64) < 0x1_0000_0000_0000_0000int) by (bit_vector);
    }
}

} // verus!
