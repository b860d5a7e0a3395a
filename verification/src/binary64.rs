//! The binary64 encoding, and the order of its bit patterns.
//!
//! A pattern is a sign bit, an exponent field of eleven bits and a fraction
//! field of fifty-two. With a zero exponent field it encodes the fraction times
//! 2^-1074; otherwise the fraction plus 2^52, times two to the power of the
//! exponent field less 1075. Every such number is a whole count of the smallest
//! positive one, 2^-1074, and [`units`] is that count: the number itself, up to
//! a change of unit.
//!
//! Counting needs powers of two with exponents in the thousands, which no
//! machine integer holds. The code therefore orders patterns by their [`rank`],
//! the pattern read as a sign and a 63-bit magnitude, and this module proves
//! that the rank orders patterns exactly as the count of units does.

use core::cmp::Ordering;
use vstd::arithmetic::power2::{
    lemma2_to64_rest, lemma_pow2_adds, lemma_pow2_pos, lemma_pow2_strictly_increases,
    lemma_pow2_unfold, pow2,
};
use vstd::prelude::*;

verus! {

/// The pattern whose only set bit is the sign.
pub const SIGN_BIT: u64 = 0x8000_0000_0000_0000;

/// The pattern of positive infinity; every larger magnitude is a NaN.
pub const INFINITY_BITS: u64 = 0x7FF0_0000_0000_0000;

/// The pattern of the number one.
pub const ONE_BITS: u64 = 0x3FF0_0000_0000_0000;

/// The number of values of the fraction field, 2^52.
pub const FRACTION_SPAN: u64 = 0x0010_0000_0000_0000;

/// The pattern with its sign bit cleared.
pub open spec fn magnitude(bits: u64) -> int {
    if bits >= SIGN_BIT {
        bits - SIGN_BIT
    } else {
        bits as int
    }
}

/// Whether the pattern encodes a NaN: an exponent field of all ones with a
/// fraction that is not zero.
pub open spec fn is_nan(bits: u64) -> bool {
    magnitude(bits) > INFINITY_BITS
}

/// The count of units of 2^-1074 in the number whose magnitude is `m`. An
/// infinity counts as the number that its fields would encode, which lies
/// beyond every finite number.
pub open spec fn magnitude_units(m: int) -> int {
    let exponent = m / (FRACTION_SPAN as int);
    let fraction = m % (FRACTION_SPAN as int);
    if exponent == 0 {
        fraction
    } else {
        (FRACTION_SPAN + fraction) * pow2((exponent - 1) as nat)
    }
}

/// The number that the pattern encodes, counted in units of 2^-1074. It has no
/// meaning for a NaN.
pub open spec fn units(bits: u64) -> int {
    if bits >= SIGN_BIT {
        -magnitude_units(magnitude(bits))
    } else {
        magnitude_units(magnitude(bits))
    }
}

/// The number one, counted in units of 2^-1074.
pub open spec fn one_in_units() -> int {
    pow2(1074) as int
}

/// The pattern read as a sign and a magnitude.
pub open spec fn rank(bits: u64) -> int {
    if bits >= SIGN_BIT {
        -magnitude(bits)
    } else {
        magnitude(bits)
    }
}

/// Whether `a` and `b` are numbers and `a` is strictly the smaller. A NaN is
/// neither below nor above anything.
pub open spec fn less(a: u64, b: u64) -> bool {
    !is_nan(a) && !is_nan(b) && units(a) < units(b)
}

/// Whether `a` and `b` are numbers of equal value. The two zeros are equal; a
/// NaN equals nothing, itself included.
pub open spec fn same(a: u64, b: u64) -> bool {
    !is_nan(a) && !is_nan(b) && units(a) == units(b)
}

/// How `a` stands to `b` as numbers; nothing when either is a NaN.
pub open spec fn order(a: u64, b: u64) -> Option<Ordering> {
    if is_nan(a) || is_nan(b) {
        None
    } else if units(a) < units(b) {
        Some(Ordering::Less)
    } else if units(a) == units(b) {
        Some(Ordering::Equal)
    } else {
        Some(Ordering::Greater)
    }
}

/// Whether the pattern encodes a number of the half-open unit interval, from
/// zero (included) to one (excluded).
pub open spec fn in_unit_interval(bits: u64) -> bool {
    !is_nan(bits) && 0 <= units(bits) < one_in_units()
}

/// A larger magnitude encodes a number farther from zero.
pub proof fn lemma_magnitude_units_increase(m1: int, m2: int)
    requires
        0 <= m1 < m2,
    ensures
        0 <= magnitude_units(m1) < magnitude_units(m2),
{
    let p = FRACTION_SPAN as int;
    let e1 = m1 / p;
    let f1 = m1 % p;
    let e2 = m2 / p;
    let f2 = m2 % p;
    assert(0 <= e1 <= e2);
    if e1 == e2 {
        if e1 != 0 {
            let k = pow2((e1 - 1) as nat) as int;
            lemma_pow2_pos((e1 - 1) as nat);
            assert(0 <= (p + f1) * k < (p + f2) * k) by (nonlinear_arith)
                requires
                    0 <= f1 < f2,
                    p > 0,
                    k > 0,
            ;
        }
    } else {
        let k2 = pow2((e2 - 1) as nat) as int;
        lemma_pow2_pos((e2 - 1) as nat);
        assert((p + f2) * k2 >= p * k2 >= p) by (nonlinear_arith)
            requires
                f2 >= 0,
                k2 >= 1,
                p > 0,
        ;
        if e1 != 0 {
            let k1 = pow2((e1 - 1) as nat) as int;
            lemma_pow2_pos((e1 - 1) as nat);
            lemma_pow2_unfold(e1 as nat);
            if e1 < e2 - 1 {
                lemma_pow2_strictly_increases(e1 as nat, (e2 - 1) as nat);
            }
            assert(2 * k1 <= k2);
            assert(0 <= (p + f1) * k1 < p * k2) by (nonlinear_arith)
                requires
                    0 <= f1 < p,
                    k1 > 0,
                    2 * k1 <= k2,
            ;
        }
    }
}

/// The rank orders the patterns as the numbers that they encode are ordered,
/// and ties them exactly where the numbers are equal.
pub proof fn lemma_rank_orders(a: u64, b: u64)
    ensures
        rank(a) < rank(b) <==> units(a) < units(b),
        rank(a) == rank(b) <==> units(a) == units(b),
{
    let ma = magnitude(a);
    let mb = magnitude(b);
    assert(magnitude_units(0) == 0);
    if ma > 0 {
        lemma_magnitude_units_increase(0, ma);
    }
    if mb > 0 {
        lemma_magnitude_units_increase(0, mb);
    }
    if ma < mb {
        lemma_magnitude_units_increase(ma, mb);
    } else if mb < ma {
        lemma_magnitude_units_increase(mb, ma);
    }
}

/// The pattern of one encodes one, and with the sign bit set it encodes minus
/// one.
pub proof fn lemma_one_encodes_one()
    ensures
        units(ONE_BITS) == one_in_units(),
        units((SIGN_BIT + ONE_BITS) as u64) == -one_in_units(),
{
    lemma2_to64_rest();
    lemma_pow2_adds(52, 1022);
    assert(ONE_BITS as int / (FRACTION_SPAN as int) == 1023);
    assert(ONE_BITS as int % (FRACTION_SPAN as int) == 0);
}

/// Computes the rank of a pattern.
pub fn rank_of(bits: u64) -> (r: i128)
    ensures
        r == rank(bits),
{
    if bits >= SIGN_BIT {
        let m: u64 = bits - SIGN_BIT;
        -(m as i128)
    } else {
        bits as i128
    }
}

/// Tells whether a pattern encodes a NaN.
pub fn nan(bits: u64) -> (r: bool)
    ensures
        r == is_nan(bits),
{
    let m: u64 = if bits >= SIGN_BIT {
        bits - SIGN_BIT
    } else {
        bits
    };
    m > INFINITY_BITS
}

/// Strict order of two patterns as numbers.
pub fn less_than(a: u64, b: u64) -> (r: bool)
    ensures
        r == less(a, b),
{
    proof {
        lemma_rank_orders(a, b);
    }
    !nan(a) && !nan(b) && rank_of(a) < rank_of(b)
}

/// Equality of two patterns as numbers.
pub fn same_number(a: u64, b: u64) -> (r: bool)
    ensures
        r == same(a, b),
{
    proof {
        lemma_rank_orders(a, b);
    }
    !nan(a) && !nan(b) && rank_of(a) == rank_of(b)
}

/// Compares two patterns as numbers.
pub fn ordered(a: u64, b: u64) -> (o: Option<Ordering>)
    ensures
        o == order(a, b),
{
    proof {
        lemma_rank_orders(a, b);
    }
    if nan(a) || nan(b) {
        None
    } else {
        let ra: i128 = rank_of(a);
        let rb: i128 = rank_of(b);
        if ra < rb {
            Some(Ordering::Less)
        } else if ra == rb {
            Some(Ordering::Equal)
        } else {
            Some(Ordering::Greater)
        }
    }
}

} // verus!
