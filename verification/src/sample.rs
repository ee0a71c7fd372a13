//! Order of IEEE-754 binary64 values, read from their 64-bit encodings.
//!
//! An encoding is the sign in bit 63 over the magnitude in the low 63 bits.
//! Among encodings that are not NaN the encoded numbers compare as their
//! signed magnitudes do, with the two zeros equal.

use vstd::prelude::*;

verus! {

/// The sign bit of an encoding.
pub const SIGN_BIT: u64 = 0x8000_0000_0000_0000;

/// The encoding of positive infinity; every larger magnitude is a NaN.
pub const INFINITY: u64 = 0x7ff0_0000_0000_0000;

/// The encoding of the largest finite value.
pub const LARGEST_FINITE: u64 = 0x7fef_ffff_ffff_ffff;

/// The encoding of the least finite value.
pub const LEAST_FINITE: u64 = 0xffef_ffff_ffff_ffff;

/// The low 63 bits of an encoding.
pub open spec fn magnitude(bits: u64) -> int {
    if bits >= SIGN_BIT {
        bits - SIGN_BIT
    } else {
        bits as int
    }
}

/// Whether the sign bit is set.
pub open spec fn is_negative(bits: u64) -> bool {
    bits >= SIGN_BIT
}

/// Whether the encoding is a NaN.
pub open spec fn is_nan(bits: u64) -> bool {
    magnitude(bits) > INFINITY
}

/// The signed magnitude, by which encoded numbers compare: both zeros have
/// rank 0.
pub open spec fn value_rank(bits: u64) -> int {
    if is_negative(bits) {
        -magnitude(bits)
    } else {
        magnitude(bits)
    }
}

/// A rank that tells all encodings apart: negative zero comes just below
/// positive zero, negative NaNs first and positive NaNs last.
pub open spec fn total_rank(bits: u64) -> int {
    if is_negative(bits) {
        -magnitude(bits) - 1
    } else {
        magnitude(bits)
    }
}

/// `a > b` as the encoded numbers compare: false whenever either is a NaN.
pub open spec fn gt(a: u64, b: u64) -> bool {
    !is_nan(a) && !is_nan(b) && value_rank(a) > value_rank(b)
}

/// `a < b` as the encoded numbers compare: false whenever either is a NaN.
pub open spec fn lt(a: u64, b: u64) -> bool {
    gt(b, a)
}

/// Whether `bits` encodes a NaN.
pub fn sample_is_nan(bits: u64) -> (r: bool)
    ensures
        r == is_nan(bits),
{
    let m: u64 = if bits >= SIGN_BIT {
        bits - SIGN_BIT
    } else {
        bits
    };
    m > INFINITY
}

/// The signed magnitude of an encoding.
pub fn sample_value_rank(bits: u64) -> (r: i64)
    ensures
        r == value_rank(bits),
{
    if bits >= SIGN_BIT {
        let m: u64 = bits - SIGN_BIT;
        -(m as i64)
    } else {
        bits as i64
    }
}

/// The total rank of an encoding.
pub fn sample_total_rank(bits: u64) -> (r: i64)
    ensures
        r == total_rank(bits),
{
    if bits >= SIGN_BIT {
        let m: u64 = bits - SIGN_BIT;
        -(m as i64) - 1
    } else {
        bits as i64
    }
}

/// Decides `a > b` on two encodings.
pub fn sample_gt(a: u64, b: u64) -> (r: bool)
    ensures
        r == gt(a, b),
{
    !sample_is_nan(a) && !sample_is_nan(b) && sample_value_rank(a) > sample_value_rank(b)
}

/// Decides `a < b` on two encodings.
pub fn sample_lt(a: u64, b: u64) -> (r: bool)
    ensures
        r == lt(a, b),
{
    sample_gt(b, a)
}

/// Among encodings that are not NaN the total rank refines the order of the
/// encoded numbers: a strictly greater number has a strictly greater total
/// rank, and a total rank that is not greater means a number that is not
/// greater.
pub proof fn lemma_total_rank_refines_value_order(a: u64, b: u64)
    ensures
        gt(a, b) ==> total_rank(a) > total_rank(b),
        total_rank(a) <= total_rank(b) ==> value_rank(a) <= value_rank(b),
        total_rank(a) == total_rank(b) <==> a == b,
{
}

/// `gt` is a strict order: nothing exceeds itself, and it is transitive.
pub proof fn lemma_gt_strict_order(a: u64, b: u64, c: u64)
    ensures
        !gt(a, a),
        gt(a, b) ==> !gt(b, a),
        gt(a, b) && gt(b, c) ==> gt(a, c),
{
}

} // verus!
