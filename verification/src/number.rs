//! Double-precision numbers as IEEE-754 binary64 bit patterns.
//!
//! The library never rounds: it only compares, negates and classifies bit
//! patterns; sums, products and quotients are asked of the host.

use vstd::prelude::*;

verus! {

/// The sign bit of a binary64 pattern.
pub const SIGN_BIT: u64 = 0x8000_0000_0000_0000u64;

/// The exponent field of a binary64 pattern, all ones.
pub const EXPONENT_MASK: u64 = 0x7ff0_0000_0000_0000u64;

/// The fraction field of a binary64 pattern, all ones.
pub const FRACTION_MASK: u64 = 0x000f_ffff_ffff_ffffu64;

/// Everything but the sign bit.
pub const MAGNITUDE_MASK: u64 = 0x7fff_ffff_ffff_ffffu64;

/// The pattern of `1.0`.
pub const ONE: u64 = 0x3ff0_0000_0000_0000u64;

/// A pattern is not a number when its exponent is all ones and its fraction
/// is not zero.
pub open spec fn is_nan(bits: u64) -> bool {
    (bits & EXPONENT_MASK) == EXPONENT_MASK && (bits & FRACTION_MASK) != 0
}

/// Where a pattern that is a number stands on the number line, as an integer
/// that grows with the number: the magnitude bits, negated under a set sign
/// bit. Both zeros stand at 0.
pub open spec fn ordinal(bits: u64) -> int {
    if (bits & SIGN_BIT) != 0 {
        -((bits & MAGNITUDE_MASK) as int)
    } else {
        (bits & MAGNITUDE_MASK) as int
    }
}

/// IEEE-754 equality: no NaN equals anything, the two zeros are equal.
pub open spec fn same_number(a: u64, b: u64) -> bool {
    !is_nan(a) && !is_nan(b) && ordinal(a) == ordinal(b)
}

/// IEEE-754 `<`: false as soon as one side is NaN.
pub open spec fn less_than(a: u64, b: u64) -> bool {
    !is_nan(a) && !is_nan(b) && ordinal(a) < ordinal(b)
}

/// IEEE-754 `<=`: false as soon as one side is NaN.
pub open spec fn at_most(a: u64, b: u64) -> bool {
    !is_nan(a) && !is_nan(b) && ordinal(a) <= ordinal(b)
}

/// The pattern with the sign bit flipped.
pub open spec fn negated(bits: u64) -> u64 {
    bits ^ SIGN_BIT
}

pub fn nan(bits: u64) -> (r: bool)
    ensures
        r == is_nan(bits),
{
    (bits & EXPONENT_MASK) == EXPONENT_MASK && (bits & FRACTION_MASK) != 0
}

/// Compares two patterns that are numbers by magnitude and sign.
fn below(a: u64, b: u64, strict: bool) -> (r: bool)
    ensures
        r == if strict {
            ordinal(a) < ordinal(b)
        } else {
            ordinal(a) <= ordinal(b)
        },
{
    let ma: u64 = a & MAGNITUDE_MASK;
    let mb: u64 = b & MAGNITUDE_MASK;
    let na: bool = (a & SIGN_BIT) != 0;
    let nb: bool = (b & SIGN_BIT) != 0;
    if na && nb {
        if strict {
            mb < ma
        } else {
            mb <= ma
        }
    } else if na {
        if strict {
            ma != 0 || mb != 0
        } else {
            true
        }
    } else if nb {
        if strict {
            false
        } else {
            ma == 0 && mb == 0
        }
    } else {
        if strict {
            ma < mb
        } else {
            ma <= mb
        }
    }
}

pub fn equal(a: u64, b: u64) -> (r: bool)
    ensures
        r == same_number(a, b),
{
    !nan(a) && !nan(b) && below(a, b, false) && below(b, a, false)
}

pub fn less(a: u64, b: u64) -> (r: bool)
    ensures
        r == less_than(a, b),
{
    !nan(a) && !nan(b) && below(a, b, true)
}

pub fn less_equal(a: u64, b: u64) -> (r: bool)
    ensures
        r == at_most(a, b),
{
    !nan(a) && !nan(b) && below(a, b, false)
}

pub fn negate(bits: u64) -> (r: u64)
    ensures
        r == negated(bits),
{
    bits ^ SIGN_BIT
}

/// Negating twice gives the pattern back, and negation never turns a number
/// into a NaN or a NaN into a number.
pub proof fn negation_is_an_involution(bits: u64)
    ensures
        negated(negated(bits)) == bits,
        is_nan(negated(bits)) == is_nan(bits),
{
    assert((bits ^ 0x8000_0000_0000_0000u64) ^ 0x8000_0000_0000_0000u64 == bits) by (bit_vector);
    assert(((bits ^ 0x8000_0000_0000_0000u64) & 0x7ff0_0000_0000_0000u64) == (bits
        & 0x7ff0_0000_0000_0000u64)) by (bit_vector);
    assert(((bits ^ 0x8000_0000_0000_0000u64) & 0x000f_ffff_ffff_ffffu64) == (bits
        & 0x000f_ffff_ffff_ffffu64)) by (bit_vector);
}

} // verus!
