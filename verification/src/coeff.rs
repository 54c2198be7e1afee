//! The per-sample filter coefficient, computed from cutoff frequency and
//! sample rate as `1 - exp(-2*pi*cutoff/rate)`, entirely in Q24 fixed point.
//!
//! `exp(-t)` is evaluated by range reduction: `exp(-t) = exp(-t/64)^64`,
//! with the small-argument factor given by the degree-four Taylor polynomial.
//! For `t` up to 4.0 the reduced argument stays below 1/16, where the
//! polynomial is accurate to well under one part in a million.

use vstd::prelude::*;

verus! {

use vstd::arithmetic::div_mod::lemma_div_is_ordered;
use vstd::arithmetic::div_mod::lemma_div_is_ordered_by_denominator;
use vstd::arithmetic::div_mod::lemma_div_denominator;
use vstd::arithmetic::div_mod::lemma_div_multiples_vanish;
use vstd::arithmetic::mul::lemma_mul_inequality;
use vstd::arithmetic::mul::lemma_mul_upper_bound;
use crate::fixed::ONE;
use crate::fixed::mul_fix;
use crate::fixed::mul_fix_spec;
use crate::fixed::lemma_mul_fix_zero;
use crate::fixed::lemma_mul_fix_one;
use crate::fixed::lemma_mul_fix_contract;
use crate::fixed::lemma_mul_fix_nonneg_bound;

/// `2*pi` in Q24.
pub const TWO_PI: i64 = 105414357;

/// Largest argument `exp_neg` accepts: 4.0 in Q24. The coefficient
/// computation stays below `pi`, safely inside this cap.
pub const T_MAX: i64 = 67108864;

/// The reduced argument: `t / 64` (1/16 at most when `t` is at most 4.0).
pub open spec fn reduced_arg_spec(t: int) -> int {
    t / 64
}

/// Degree-four Taylor polynomial for `exp(-s)` on a small argument `s`,
/// evaluated with the Q24 product and rounding toward zero.
pub open spec fn exp_poly_spec(s: int) -> int {
    let s2 = mul_fix_spec(s, s);
    let s3 = mul_fix_spec(s2, s);
    let s4 = mul_fix_spec(s3, s);
    (ONE as int) - s + s2 / 2 - s3 / 6 + s4 / 24
}

/// One Q24 squaring.
pub open spec fn sq_fix_spec(x: int) -> int {
    mul_fix_spec(x, x)
}

/// `exp(-t)` in Q24: the polynomial on the reduced argument, squared six
/// times to undo the division of `t` by 64.
pub open spec fn exp_neg_spec(t: int) -> int {
    sq_fix_spec(
        sq_fix_spec(
            sq_fix_spec(sq_fix_spec(sq_fix_spec(sq_fix_spec(exp_poly_spec(reduced_arg_spec(t)))))),
        ),
    )
}

/// The cutoff the coefficient is computed from: a request above the Nyquist
/// frequency folds down to it, so every rate is safe at both extremes.
pub open spec fn effective_cutoff_spec(cutoff_hz: int, sample_rate: int) -> int {
    if 2 * cutoff_hz <= sample_rate {
        cutoff_hz
    } else {
        sample_rate / 2
    }
}

/// The filter coefficient for a cutoff and a sample rate:
/// `ONE - exp(-2*pi*cutoff/rate)` in Q24, with the cutoff capped at the
/// Nyquist frequency.
pub open spec fn cutoff_coeff_spec(cutoff_hz: int, sample_rate: int) -> int {
    (ONE as int) - exp_neg_spec(
        ((TWO_PI as int) * effective_cutoff_spec(cutoff_hz, sample_rate)) / sample_rate,
    )
}

/// For non-negative `x`, multiplying by 2^20 and dividing by 2^24 is
/// division by 16.
proof fn lemma_quarter_shift(x: int)
    requires
        0 <= x,
    ensures
        (x * 1048576) / (ONE as int) == x / 16,
{
    assert(0 <= x * 1048576) by (nonlinear_arith)
        requires 0 <= x,
    ;
    lemma_div_denominator(x * 1048576, 1048576, 16);
    assert((x * 1048576) / 1048576 == x) by {
        assert(x * 1048576 == 1048576 * x) by (nonlinear_arith);
        lemma_div_multiples_vanish(x, 1048576);
    }
}

/// The Taylor factor on a reduced argument stays in `[0, ONE]`, and is
/// exactly `ONE` at zero.
proof fn lemma_exp_poly_range(s: int)
    requires
        0 <= s <= 1048576,
    ensures
        0 <= exp_poly_spec(s) <= ONE as int,
        s == 0 ==> exp_poly_spec(s) == ONE as int,
{
    let u = ONE as int;
    let s2 = mul_fix_spec(s, s);
    let s3 = mul_fix_spec(s2, s);
    let s4 = mul_fix_spec(s3, s);
    lemma_mul_fix_nonneg_bound(s, s, 1048576);
    assert(s * 1048576 == 1048576 * s) by (nonlinear_arith);
    lemma_quarter_shift(s);
    assert(s2 <= s / 16);
    lemma_mul_fix_nonneg_bound(s2, s, 1048576);
    lemma_quarter_shift(s2);
    assert(s3 <= s2 / 16);
    lemma_mul_fix_nonneg_bound(s3, s, 1048576);
    lemma_quarter_shift(s3);
    assert(s4 <= s3 / 16);
    lemma_div_is_ordered(s2, s / 16, 16);
    lemma_div_is_ordered(s3, s2 / 16, 16);
    lemma_div_denominator(s, 16, 16);
    lemma_div_denominator(s, 256, 16);
    assert(s3 <= s / 256);
    assert(s4 <= s / 4096);
    // The subtracted first-order term dominates the added second- and
    // fourth-order terms, so the polynomial never exceeds ONE.
    assert(s2 / 2 <= s2);
    assert(s4 / 24 <= s4);
    assert(s / 4096 <= s / 16) by {
        lemma_div_is_ordered_by_denominator(s, 16, 4096);
    }
    assert(s2 / 2 + s4 / 24 <= 2 * (s / 16));
    assert(16 * (s / 16) <= s) by {
        vstd::arithmetic::div_mod::lemma_fundamental_div_mod(s, 16);
        vstd::arithmetic::div_mod::lemma_mod_bound(s, 16);
    }
    assert(exp_poly_spec(s) <= u);
    // Lower bound: everything subtracted is at most 2 * s, far below ONE.
    assert(s3 / 6 <= s3);
    assert(exp_poly_spec(s) >= u - s - s3 / 6);
    assert(s3 <= s);
    assert(exp_poly_spec(s) >= u - 2 * s);
    if s == 0 {
        lemma_mul_fix_zero(0);
        assert(s2 == 0);
        assert(s3 == 0);
        assert(s4 == 0);
    }
}

/// `exp(-t)` in Q24 for `t` in `[0, 4.0]`. The result lies in `[0, ONE]`
/// and equals `ONE` exactly when `t` is zero.
pub fn exp_neg(t: i64) -> (r: i64)
    requires
        0 <= t <= T_MAX,
    ensures
        r == exp_neg_spec(t as int),
        0 <= r <= ONE,
        t == 0 ==> r == ONE,
{
    let s: i64 = ((t as u64) / 64) as i64;
    proof {
        assert(s == reduced_arg_spec(t as int));
        assert(0 <= s <= 1048576) by {
            lemma_div_is_ordered(t as int, T_MAX as int, 64);
        }
        lemma_exp_poly_range(s as int);
        lemma_mul_fix_nonneg_bound(s as int, s as int, 1048576);
    }
    let s2: i64 = mul_fix(s, s);
    proof {
        lemma_mul_fix_nonneg_bound(s2 as int, s as int, 1048576);
    }
    let s3: i64 = mul_fix(s2, s);
    proof {
        lemma_mul_fix_nonneg_bound(s3 as int, s as int, 1048576);
    }
    let s4: i64 = mul_fix(s3, s);
    let p: i64 = ONE - s + ((s2 as u64) / 2) as i64 - ((s3 as u64) / 6) as i64 + (
    (s4 as u64) / 24) as i64;
    proof {
        assert(p == exp_poly_spec(s as int));
        assert(0 <= p <= ONE);
    }
    let r1: i64 = square_unit(p);
    let r2: i64 = square_unit(r1);
    let r3: i64 = square_unit(r2);
    let r4: i64 = square_unit(r3);
    let r5: i64 = square_unit(r4);
    square_unit(r5)
}

/// One Q24 squaring of a value in `[0, ONE]`; the result stays in `[0, ONE]`
/// and unity squares to itself.
fn square_unit(x: i64) -> (r: i64)
    requires
        0 <= x <= ONE,
    ensures
        r == sq_fix_spec(x as int),
        0 <= r <= x,
        x == ONE ==> r == ONE,
{
    proof {
        lemma_mul_fix_contract(x as int, x as int);
        if x == ONE {
            lemma_mul_fix_one(ONE as int);
        }
    }
    mul_fix(x, x)
}

/// The filter coefficient, as `ONE - exp(-2*pi*cutoff/rate)` in Q24 with
/// the cutoff capped at the Nyquist frequency. Well defined at both cutoff
/// extremes and at any nonzero rate: the result always lies in `[0, ONE]`.
pub fn cutoff_coeff(cutoff_hz: u32, sample_rate: u32) -> (c: i64)
    requires
        1 <= sample_rate,
    ensures
        c == cutoff_coeff_spec(cutoff_hz as int, sample_rate as int),
        0 <= c <= ONE,
{
    let rr: u64 = sample_rate as u64;
    let fe: u64 = if (cutoff_hz as u64) * 2 <= rr {
        cutoff_hz as u64
    } else {
        rr / 2
    };
    proof {
        assert(fe == effective_cutoff_spec(cutoff_hz as int, sample_rate as int));
        assert(2 * (fe as int) <= rr as int) by {
            if !(2 * (cutoff_hz as int) <= rr as int) {
                vstd::arithmetic::div_mod::lemma_fundamental_div_mod(rr as int, 2);
                vstd::arithmetic::div_mod::lemma_mod_bound(rr as int, 2);
            }
        }
        assert((TWO_PI as int) * (fe as int) <= (T_MAX as int) * (sample_rate as int))
            by (nonlinear_arith)
            requires 2 * (fe as int) <= sample_rate as int, 0 <= fe as int,
        ;
        lemma_mul_upper_bound(TWO_PI as int, TWO_PI as int, fe as int, 0xffff_ffff);
    }
    let num: u64 = (TWO_PI as u64) * fe;
    let t: u64 = num / (sample_rate as u64);
    proof {
        lemma_div_is_ordered(num as int, (T_MAX as int) * (sample_rate as int), sample_rate as int);
        assert(((T_MAX as int) * (sample_rate as int)) / (sample_rate as int) == T_MAX as int) by {
            assert((T_MAX as int) * (sample_rate as int) == (sample_rate as int) * (T_MAX as int))
                by (nonlinear_arith);
            lemma_div_multiples_vanish(T_MAX as int, sample_rate as int);
        }
        assert(t <= T_MAX);
    }
    let e: i64 = exp_neg(t as i64);
    ONE - e
}

} // verus!
