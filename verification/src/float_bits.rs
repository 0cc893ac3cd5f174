//! Comparisons of `f64` values given by their IEEE-754 bit patterns: the
//! ordinary comparisons (false whenever a NaN takes part) and the total
//! order of `f64::total_cmp`.
use vstd::prelude::*;

verus! {

/// Bit pattern of the sign bit.
pub const SIGN_BIT: u64 = 0x8000_0000_0000_0000;

/// Bit pattern of positive infinity.
pub const INFINITY_BITS: u64 = 0x7FF0_0000_0000_0000;

/// Bit pattern of -1.0.
pub const MINUS_ONE_BITS: u64 = 0xBFF0_0000_0000_0000;

/// Bit pattern of a quiet NaN.
pub const NAN_BITS: u64 = 0x7FF8_0000_0000_0000;

/// Magnitude bits (all but the sign).
pub open spec fn magnitude(b: u64) -> int {
    if b >= SIGN_BIT {
        b - SIGN_BIT
    } else {
        b as int
    }
}

/// Whether the pattern is a NaN.
pub open spec fn nan(b: u64) -> bool {
    magnitude(b) > INFINITY_BITS
}

/// Position of a non-NaN value on the real line (both zeros at 0); the
/// magnitude bits order finite values and infinity as their values.
pub open spec fn real_rank(b: u64) -> int {
    if b >= SIGN_BIT {
        -magnitude(b)
    } else {
        magnitude(b)
    }
}

/// `a < b` for the values the patterns stand for.
pub open spec fn lt(a: u64, b: u64) -> bool {
    !nan(a) && !nan(b) && real_rank(a) < real_rank(b)
}

/// `a <= b` for the values the patterns stand for.
pub open spec fn le(a: u64, b: u64) -> bool {
    !nan(a) && !nan(b) && real_rank(a) <= real_rank(b)
}

/// Position in the total order of `f64::total_cmp`: negative patterns below
/// positive ones, -0 below +0, NaNs at the ends.
pub open spec fn total_rank(b: u64) -> int {
    if b >= SIGN_BIT {
        -magnitude(b) - 1
    } else {
        b as int
    }
}

/// `f64::total_cmp` orders bit patterns totally: two patterns take the same
/// place only if they are the same.
pub proof fn lemma_total_rank_injective(a: u64, b: u64)
    ensures
        total_rank(a) == total_rank(b) ==> a == b,
{
}

/// The ordinary `<` agrees with the total order wherever it holds.
pub proof fn lemma_lt_total(a: u64, b: u64)
    ensures
        lt(a, b) ==> total_rank(a) < total_rank(b),
{
}

/// The ordinary `<` is a strict order: irreflexive and transitive.
pub proof fn lemma_lt_strict(a: u64, b: u64, c: u64)
    ensures
        !lt(a, a),
        lt(a, b) && lt(b, c) ==> lt(a, c),
        lt(a, b) ==> !lt(b, a),
{
}

/// Whether a pattern is a NaN.
pub fn is_nan(b: u64) -> (r: bool)
    ensures
        r == nan(b),
{
    let m = if b >= SIGN_BIT {
        b - SIGN_BIT
    } else {
        b
    };
    m > INFINITY_BITS
}

/// `a < b`.
pub fn less(a: u64, b: u64) -> (r: bool)
    ensures
        r == lt(a, b),
{
    if is_nan(a) || is_nan(b) {
        return false;
    }
    let a_neg = a >= SIGN_BIT;
    let b_neg = b >= SIGN_BIT;
    if a_neg && b_neg {
        a - SIGN_BIT > b - SIGN_BIT
    } else if a_neg {
        !(a == SIGN_BIT && b == 0)
    } else if b_neg {
        false
    } else {
        a < b
    }
}

/// `a <= b`.
pub fn less_eq(a: u64, b: u64) -> (r: bool)
    ensures
        r == le(a, b),
{
    if is_nan(a) || is_nan(b) {
        return false;
    }
    let a_neg = a >= SIGN_BIT;
    let b_neg = b >= SIGN_BIT;
    if a_neg && b_neg {
        a - SIGN_BIT >= b - SIGN_BIT
    } else if a_neg {
        true
    } else if b_neg {
        a == 0 && b == SIGN_BIT
    } else {
        a <= b
    }
}

/// `a > 0.0`.
pub fn positive(a: u64) -> (r: bool)
    ensures
        r == lt(0, a),
{
    less(0, a)
}

/// `f64::total_cmp(a, b) == Less`.
pub fn total_less(a: u64, b: u64) -> (r: bool)
    ensures
        r == (total_rank(a) < total_rank(b)),
{
    let a_neg = a >= SIGN_BIT;
    let b_neg = b >= SIGN_BIT;
    if a_neg && b_neg {
        a > b
    } else if a_neg {
        true
    } else if b_neg {
        false
    } else {
        a < b
    }
}

} // verus!
