//! The soft-saturation stage: a bounded cubic waveshaper blended with the
//! dry signal under a drive control, with a final clamp to `[-1, 1]`.
//!
//! The shaper is the classic cubic soft clip `1.5*u - 0.5*u^3` inside
//! `[-1, 1]` and a hard ceiling of exactly 1.0 outside it. Drive blends
//! between the dry sample (drive at its minimum, an inaudible pass-through)
//! and the fully shaped sample (drive at 0 dB); the output always lies in
//! `[-1, 1]`, whatever the input amplitude.

use vstd::prelude::*;

verus! {

use crate::fixed::ONE;
use crate::fixed::SAMPLE_MAX;
use crate::fixed::clamp_spec;
use crate::fixed::clamp_fix;
use crate::fixed::mul_fix;
use crate::fixed::mul_fix_spec;
use crate::fixed::lemma_mul_fix_zero;
use crate::fixed::lemma_mul_fix_contract;
use crate::fixed::lemma_mul_fix_comm;
use crate::fixed::lemma_square_range;

/// 1.5 in Q24: the cubic shaper's linear coefficient.
pub const THREE_HALVES: i64 = 25165824;

/// 0.5 in Q24: the cubic shaper's cubic coefficient.
pub const ONE_HALF: i64 = 8388608;

/// The bounded waveshaper: the cubic soft clip inside `[-ONE, ONE]`, a hard
/// ceiling outside it.
pub open spec fn soft_clip_spec(u: int) -> int {
    if u >= ONE as int {
        ONE as int
    } else if u <= -(ONE as int) {
        -(ONE as int)
    } else {
        let u3 = mul_fix_spec(mul_fix_spec(u, u), u);
        clamp_spec(
            mul_fix_spec(u, THREE_HALVES as int) - mul_fix_spec(u3, ONE_HALF as int),
            -(ONE as int),
            ONE as int,
        )
    }
}

/// The saturation stage: blend the dry sample toward its shaped version by
/// the drive amount, then clamp to `[-ONE, ONE]`.
pub open spec fn saturate_spec(u: int, g: int) -> int {
    clamp_spec(u + mul_fix_spec(g, soft_clip_spec(u) - u), -(ONE as int), ONE as int)
}

/// The bounded waveshaper. The result always lies in `[-ONE, ONE]` and is
/// zero at zero.
pub fn soft_clip(u: i64) -> (r: i64)
    requires
        -SAMPLE_MAX <= u <= SAMPLE_MAX,
    ensures
        r == soft_clip_spec(u as int),
        -ONE <= r <= ONE,
        u == 0 ==> r == 0,
{
    if u >= ONE {
        ONE
    } else if u <= -ONE {
        -ONE
    } else {
        proof {
            lemma_square_range(u as int);
            if u == 0 {
                lemma_mul_fix_zero(0);
                lemma_mul_fix_zero(THREE_HALVES as int);
                lemma_mul_fix_zero(ONE_HALF as int);
            }
        }
        let u2: i64 = mul_fix(u, u);
        proof {
            lemma_mul_fix_comm(u2 as int, u as int);
            lemma_mul_fix_contract(u as int, u2 as int);
        }
        let u3: i64 = mul_fix(u2, u);
        proof {
            lemma_cubic_terms_bounded(u as int, u3 as int);
        }
        let lin: i64 = mul_fix(u, THREE_HALVES);
        let cub: i64 = mul_fix(u3, ONE_HALF);
        clamp_fix(lin - cub, -ONE, ONE)
    }
}

/// Magnitude bounds for the two terms of the cubic shaper on `|u| < ONE`.
proof fn lemma_cubic_terms_bounded(u: int, u3: int)
    requires
        -(ONE as int) <= u <= ONE as int,
        -(ONE as int) <= u3 <= ONE as int,
    ensures
        -2 * (ONE as int) <= mul_fix_spec(u, THREE_HALVES as int) <= 2 * (ONE as int),
        -(ONE as int) <= mul_fix_spec(u3, ONE_HALF as int) <= ONE as int,
{
    lemma_mul_fix_contract(u3, ONE_HALF as int);
    let th = THREE_HALVES as int;
    let one = ONE as int;
    if u >= 0 {
        assert(0 <= u * th <= (2 * one) * one) by (nonlinear_arith)
            requires 0 <= u <= one, th == 25165824, one == 16777216,
        ;
        vstd::arithmetic::div_mod::lemma_div_is_ordered(u * th, (2 * one) * one, one);
        assert(((2 * one) * one) / one == 2 * one) by {
            assert((2 * one) * one == one * (2 * one)) by (nonlinear_arith);
            vstd::arithmetic::div_mod::lemma_div_multiples_vanish(2 * one, one);
        }
        vstd::arithmetic::div_mod::lemma_div_is_ordered(0, u * th, one);
    } else {
        assert(u * th < 0) by (nonlinear_arith)
            requires u < 0, th > 0,
        ;
        assert(0 < -(u * th) <= (2 * one) * one) by (nonlinear_arith)
            requires -one <= u < 0, th == 25165824, one == 16777216,
        ;
        vstd::arithmetic::div_mod::lemma_div_is_ordered(-(u * th), (2 * one) * one, one);
        assert(((2 * one) * one) / one == 2 * one) by {
            assert((2 * one) * one == one * (2 * one)) by (nonlinear_arith);
            vstd::arithmetic::div_mod::lemma_div_multiples_vanish(2 * one, one);
        }
        vstd::arithmetic::div_mod::lemma_div_is_ordered(0, -(u * th), one);
    }
}

/// The saturation stage. For every drive the output lies in `[-ONE, ONE]`;
/// at zero drive it passes any in-range sample through unchanged, and at
/// zero input it is silent for every drive.
pub fn saturate(u: i64, g: i64) -> (r: i64)
    requires
        -SAMPLE_MAX <= u <= SAMPLE_MAX,
        0 <= g <= ONE,
    ensures
        r == saturate_spec(u as int, g as int),
        -ONE <= r <= ONE,
        g == 0 && -ONE <= u <= ONE ==> r == u,
        u == 0 ==> r == 0,
{
    let v: i64 = soft_clip(u);
    let d: i64 = v - u;
    proof {
        lemma_mul_fix_contract(d as int, g as int);
        assert(mul_fix_spec(g as int, d as int) == mul_fix_spec(d as int, g as int)) by {
            let a = d as int;
            let b = g as int;
            assert(b * a == a * b) by (nonlinear_arith);
            assert(-(b * a) == -(a * b)) by (nonlinear_arith);
        }
        if g == 0 {
            lemma_mul_fix_zero(d as int);
        }
        if u == 0 {
            lemma_mul_fix_zero(g as int);
        }
    }
    clamp_fix(u + mul_fix(g, d), -ONE, ONE)
}

/// A drive of zero leaves every in-range sample exactly unchanged: the
/// stage at minimum drive is a true pass-through.
pub proof fn lemma_zero_drive_passthrough(u: int)
    requires
        -(ONE as int) <= u <= ONE as int,
    ensures
        saturate_spec(u, 0) == u,
{
    lemma_mul_fix_zero(soft_clip_spec(u) - u);
}

/// Silence saturates to silence for every drive setting.
pub proof fn lemma_quiet_saturation(g: int)
    ensures
        saturate_spec(0, g) == 0,
{
    assert(soft_clip_spec(0) == 0) by {
        lemma_mul_fix_zero(0);
        lemma_mul_fix_zero(THREE_HALVES as int);
        lemma_mul_fix_zero(ONE_HALF as int);
    }
    lemma_mul_fix_zero(g);
}

} // verus!
