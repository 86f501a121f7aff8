//! Numbers as IEEE-754 double-precision bit patterns.
//!
//! The engine never performs floating-point arithmetic; it only stores,
//! moves and *compares* numeric values.  A value is therefore carried as the
//! 64-bit pattern of a double, and comparisons go through an order key:
//! a monotone rearrangement of the bit pattern under which the ordinary
//! `u64` order agrees with the numeric order of the encoded doubles
//! (negative values below positive ones, both zeroes identified, the
//! magnitude order reversed on the negative side).  This gives the engine a
//! single explicit total order over all bit patterns, which is the
//! documented comparison policy for tree thresholds and leaf scores.

use vstd::prelude::*;

verus! {

/// Sign bit of a double-precision pattern; also the order key shared by the
/// patterns of `+0.0` and `-0.0`.
pub const SIGN_BIT: u64 = 0x8000_0000_0000_0000;

/// Bit pattern of `+0.0`, the default value substituted for an absent
/// feature during tree descent.
pub const ZERO_BITS: u64 = 0;

/// Exponent bits of a double-precision pattern.
pub const EXPONENT_MASK: u64 = 0x7FF0_0000_0000_0000;

/// Mantissa bits of a double-precision pattern.
pub const MANTISSA_MASK: u64 = 0x000F_FFFF_FFFF_FFFF;

/// Bit pattern of `0.5`, the decision threshold of the logistic scorer.
pub const HALF_BITS: u64 = 0x3FE0_0000_0000_0000;

/// Bit pattern of `1.0`, the positive label of the logistic scorer.
pub const ONE_BITS: u64 = 0x3FF0_0000_0000_0000;

/// Order key of a bit pattern: the negative half-range is reflected below
/// the positive one, and the two zero patterns collapse to the same key.
pub open spec fn spec_key(bits: u64) -> u64 {
    if bits == SIGN_BIT {
        SIGN_BIT
    } else if bits & SIGN_BIT == SIGN_BIT {
        !bits
    } else {
        bits | SIGN_BIT
    }
}

/// `a` is at or below `b` in the engine's numeric order.
pub open spec fn spec_le(a: u64, b: u64) -> bool {
    spec_key(a) <= spec_key(b)
}

/// `a` is strictly below `b` in the engine's numeric order.
pub open spec fn spec_lt(a: u64, b: u64) -> bool {
    spec_key(a) < spec_key(b)
}

/// The pattern encodes a NaN: exponent bits all ones and a nonzero
/// mantissa.  NaN scores never win a leaf argmax; they are skipped.
pub open spec fn spec_is_nan(bits: u64) -> bool {
    bits & EXPONENT_MASK == EXPONENT_MASK && bits & MANTISSA_MASK != 0
}

/// Tests whether a bit pattern encodes a NaN.
pub fn num_is_nan(bits: u64) -> (r: bool)
    ensures
        r == spec_is_nan(bits),
{
    bits & EXPONENT_MASK == EXPONENT_MASK && bits & MANTISSA_MASK != 0
}

/// Computes the order key of a bit pattern.
pub fn order_key(bits: u64) -> (k: u64)
    ensures
        k == spec_key(bits),
{
    if bits == SIGN_BIT {
        SIGN_BIT
    } else if bits & SIGN_BIT == SIGN_BIT {
        !bits
    } else {
        bits | SIGN_BIT
    }
}

/// Compares two bit patterns in the engine's numeric order.
pub fn num_le(a: u64, b: u64) -> (r: bool)
    ensures
        r == spec_le(a, b),
{
    order_key(a) <= order_key(b)
}

/// Strict comparison of two bit patterns in the engine's numeric order.
pub fn num_lt(a: u64, b: u64) -> (r: bool)
    ensures
        r == spec_lt(a, b),
{
    order_key(a) < order_key(b)
}

} // verus!
