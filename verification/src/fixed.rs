//! Q24 fixed-point arithmetic: the number format every DSP stage computes in.
//!
//! A sample or parameter value `v` stands for the real number `v / 2^24`.
//! Products are rounded toward zero, which keeps multiplication by a factor
//! in `[0, 1]` a contraction: the result never grows in magnitude.

use vstd::prelude::*;

verus! {

use vstd::arithmetic::div_mod::lemma_div_is_ordered;
use vstd::arithmetic::div_mod::lemma_div_multiples_vanish;
use vstd::arithmetic::mul::lemma_mul_inequality;
use vstd::arithmetic::mul::lemma_mul_upper_bound;

/// Unity (the real number 1.0) in Q24 fixed point: 2^24.
pub const ONE: i64 = 16777216;

/// Largest magnitude accepted by the fixed-point multiplier: 2^40.
/// The product of two such operands stays below 2^80 and its quotient by
/// `ONE` below 2^56, comfortably inside `i64`.
pub const MAG_LIMIT: i64 = 1099511627776;

/// Largest sample magnitude the DSP stages accept: 4.0 in Q24.
pub const SAMPLE_MAX: i64 = 67108864;

/// Q24 product rounded toward zero: `sign(a * b) * (|a * b| / 2^24)`.
pub open spec fn mul_fix_spec(a: int, b: int) -> int {
    if a * b >= 0 {
        (a * b) / (ONE as int)
    } else {
        -((-(a * b)) / (ONE as int))
    }
}

/// Clamp `x` into the closed interval `[lo, hi]`.
pub open spec fn clamp_spec(x: int, lo: int, hi: int) -> int {
    if x < lo {
        lo
    } else if x > hi {
        hi
    } else {
        x
    }
}

pub fn clamp_fix(x: i64, lo: i64, hi: i64) -> (r: i64)
    requires
        lo <= hi,
    ensures
        r == clamp_spec(x as int, lo as int, hi as int),
{
    if x < lo {
        lo
    } else if x > hi {
        hi
    } else {
        x
    }
}

/// Q24 multiply, rounding toward zero.
pub fn mul_fix(a: i64, b: i64) -> (r: i64)
    requires
        -MAG_LIMIT <= a <= MAG_LIMIT,
        -MAG_LIMIT <= b <= MAG_LIMIT,
    ensures
        r == mul_fix_spec(a as int, b as int),
{
    let ua: u128 = if a >= 0 {
        a as u128
    } else {
        (-(a as i128)) as u128
    };
    let ub: u128 = if b >= 0 {
        b as u128
    } else {
        (-(b as i128)) as u128
    };
    proof {
        assert(ua <= MAG_LIMIT && ub <= MAG_LIMIT);
        assert(ua * ub <= MAG_LIMIT * MAG_LIMIT) by {
            lemma_mul_upper_bound(ua as int, MAG_LIMIT as int, ub as int, MAG_LIMIT as int);
        }
    }
    let p: u128 = ua * ub;
    let q: u128 = p / 16777216u128;
    proof {
        lemma_div_is_ordered(p as int, (MAG_LIMIT as int) * (MAG_LIMIT as int), ONE as int);
        assert((MAG_LIMIT as int) * (MAG_LIMIT as int) / (ONE as int) < 0x8000_0000_0000_0000)
            by (nonlinear_arith);
        assert(ua * ub == if a * b >= 0 { a * b } else { -(a * b) }) by (nonlinear_arith)
            requires
                ua == if a >= 0 { a as int } else { -(a as int) },
                ub == if b >= 0 { b as int } else { -(b as int) },
        ;
    }
    if (a < 0) != (b < 0) {
        proof {
            assert(a * b <= 0) by (nonlinear_arith)
                requires (a < 0 && b >= 0) || (a >= 0 && b < 0),
            ;
            if a * b == 0 {
                assert(q == 0);
            }
        }
        -(q as i64)
    } else {
        proof {
            assert(a * b >= 0) by (nonlinear_arith)
                requires (a < 0 && b < 0) || (a >= 0 && b >= 0),
            ;
        }
        q as i64
    }
}

/// Multiplying by zero gives zero.
pub proof fn lemma_mul_fix_zero(a: int)
    ensures
        mul_fix_spec(a, 0) == 0,
        mul_fix_spec(0, a) == 0,
{
    assert(a * 0 == 0) by (nonlinear_arith);
    assert(0 * a == 0) by (nonlinear_arith);
}

/// Multiplying by unity is exact: `ONE` is a true identity for the Q24 product.
pub proof fn lemma_mul_fix_one(a: int)
    ensures
        mul_fix_spec(a, ONE as int) == a,
        mul_fix_spec(ONE as int, a) == a,
{
    let u = ONE as int;
    assert(a * u == u * a) by (nonlinear_arith);
    if a >= 0 {
        assert(a * u >= 0) by (nonlinear_arith)
            requires a >= 0, u > 0,
        ;
        assert((u * a) / u == a) by {
            lemma_div_multiples_vanish(a, u);
        }
    } else {
        assert(a * u < 0) by (nonlinear_arith)
            requires a < 0, u > 0,
        ;
        assert(-(a * u) == u * (-a)) by (nonlinear_arith);
        assert((u * (-a)) / u == -a) by {
            lemma_div_multiples_vanish(-a, u);
        }
    }
}

/// A factor in `[0, ONE]` is a contraction: the product keeps the sign of `a`
/// (weakly) and never exceeds `a` in magnitude.
pub proof fn lemma_mul_fix_contract(a: int, c: int)
    requires
        0 <= c <= ONE as int,
    ensures
        a >= 0 ==> 0 <= mul_fix_spec(a, c) <= a,
        a < 0 ==> a <= mul_fix_spec(a, c) <= 0,
{
    let u = ONE as int;
    if a >= 0 {
        assert(0 <= a * c <= a * u) by (nonlinear_arith)
            requires a >= 0, 0 <= c <= u,
        ;
        lemma_div_is_ordered(a * c, a * u, u);
        assert(a * u == u * a) by (nonlinear_arith);
        lemma_div_multiples_vanish(a, u);
        assert((a * c) / u >= 0) by {
            lemma_div_is_ordered(0, a * c, u);
        }
    } else {
        assert(a * c <= 0) by (nonlinear_arith)
            requires a < 0, c >= 0,
        ;
        if a * c == 0 {
        } else {
            assert(0 < -(a * c) <= (-a) * u) by (nonlinear_arith)
                requires a < 0, 0 <= c <= u, a * c < 0,
            ;
            lemma_div_is_ordered(-(a * c), (-a) * u, u);
            assert((-a) * u == u * (-a)) by (nonlinear_arith);
            lemma_div_multiples_vanish(-a, u);
            assert((-(a * c)) / u >= 0) by {
                lemma_div_is_ordered(0, -(a * c), u);
            }
        }
    }
}

/// The Q24 product is commutative.
pub proof fn lemma_mul_fix_comm(a: int, b: int)
    ensures
        mul_fix_spec(a, b) == mul_fix_spec(b, a),
{
    assert(a * b == b * a) by (nonlinear_arith);
    assert(-(a * b) == -(b * a)) by (nonlinear_arith);
}

/// The Q24 square of a value in `[-ONE, ONE]` lies in `[0, ONE]`.
pub proof fn lemma_square_range(u: int)
    requires
        -(ONE as int) <= u <= ONE as int,
    ensures
        0 <= mul_fix_spec(u, u) <= ONE as int,
{
    let one = ONE as int;
    assert(0 <= u * u <= one * one) by (nonlinear_arith)
        requires -one <= u <= one,
    ;
    lemma_div_is_ordered(0, u * u, one);
    lemma_div_is_ordered(u * u, one * one, one);
    assert((one * one) / one == one) by {
        lemma_div_multiples_vanish(one, one);
    }
}

/// Bound on a product of non-negative factors: `mul_fix_spec(a, b) <= (a * bound) / ONE`
/// whenever `0 <= b <= bound`; in particular the product is non-negative.
pub proof fn lemma_mul_fix_nonneg_bound(a: int, b: int, bound: int)
    requires
        0 <= a,
        0 <= b <= bound,
    ensures
        0 <= mul_fix_spec(a, b) <= (a * bound) / (ONE as int),
{
    let u = ONE as int;
    assert(0 <= a * b) by (nonlinear_arith)
        requires 0 <= a, 0 <= b,
    ;
    assert(a * b <= a * bound) by {
        lemma_mul_inequality(b, bound, a);
        assert(b * a == a * b) by (nonlinear_arith);
        assert(bound * a == a * bound) by (nonlinear_arith);
    }
    lemma_div_is_ordered(a * b, a * bound, u);
    lemma_div_is_ordered(0, a * b, u);
}

} // verus!
