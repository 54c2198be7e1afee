//! The stateful one-pole low-pass filter with resonance feedback, and the
//! plain one-pole reference update it reduces to at zero resonance.
//!
//! The resonance feedback is derived from the change of the output between
//! the two previous samples (a band-pass-like term that vanishes at DC), so
//! resonance never introduces a DC gain error; the state is clamped to a
//! fixed range, so the filter is bounded by construction for every parameter
//! setting.

use vstd::prelude::*;

verus! {

use crate::fixed::ONE;
use crate::fixed::SAMPLE_MAX;
use crate::fixed::clamp_spec;
use crate::fixed::clamp_fix;
use crate::fixed::mul_fix;
use crate::fixed::mul_fix_spec;
use crate::fixed::lemma_mul_fix_zero;
use crate::fixed::lemma_mul_fix_one;
use crate::fixed::lemma_mul_fix_contract;

/// Largest magnitude the filter state may take: 4.0 in Q24. The update
/// clamps to this range, which bounds the output for every input and
/// parameter setting the contracts admit.
pub const STATE_MAX: i64 = 67108864;

/// Largest resonance feedback factor: 2.0 in Q24.
pub const RES_FB_MAX: i64 = 33554432;

/// Per-channel filter memory: the last two output samples.
#[derive(Clone, Copy, Debug, PartialEq, Eq, Structural)]
pub struct ChannelState {
    /// The previous output sample.
    pub y1: i64,
    /// The output sample before the previous one.
    pub y2: i64,
}

impl ChannelState {
    pub open spec fn wf(self) -> bool {
        &&& -STATE_MAX <= self.y1 <= STATE_MAX
        &&& -STATE_MAX <= self.y2 <= STATE_MAX
    }

    pub open spec fn is_zero(self) -> bool {
        self.y1 == 0 && self.y2 == 0
    }

    /// Fresh state: both memory slots at zero, as on stream initialization.
    pub fn new() -> (st: ChannelState)
        ensures
            st.is_zero(),
            st.wf(),
    {
        ChannelState { y1: 0, y2: 0 }
    }
}

/// The plain one-pole low-pass update: move the state toward the input by
/// the coefficient's fraction of the distance.
pub open spec fn one_pole_step_spec(y1: int, x: int, c: int) -> int {
    y1 + mul_fix_spec(c, x - y1)
}

/// The resonant update: add to the input a feedback proportional to the
/// change of the output over the two previous samples, then take the plain
/// one-pole step, clamping the intermediate sum and the new state.
pub open spec fn resonant_step_spec(y1: int, y2: int, x: int, c: int, q: int) -> int {
    let fb = mul_fix_spec(q, y1 - y2);
    let xi = clamp_spec(x + fb, -(STATE_MAX as int), STATE_MAX as int);
    let y = y1 + mul_fix_spec(c, xi - y1);
    clamp_spec(y, -(STATE_MAX as int), STATE_MAX as int)
}

/// The plain one-pole low-pass update, as an executable reference. The
/// output lies between the old state and the input.
pub fn one_pole_step(y1: i64, x: i64, c: i64) -> (y: i64)
    requires
        -STATE_MAX <= y1 <= STATE_MAX,
        -SAMPLE_MAX <= x <= SAMPLE_MAX,
        0 <= c <= ONE,
    ensures
        y == one_pole_step_spec(y1 as int, x as int, c as int),
        y1 <= x ==> y1 <= y <= x,
        x <= y1 ==> x <= y <= y1,
{
    proof {
        lemma_one_pole_between(y1 as int, x as int, c as int);
    }
    let d: i64 = x - y1;
    y1 + mul_fix(c, d)
}

/// The one-pole output lies between the old state and the input: the stage
/// can only move the state toward the input, never past it.
pub proof fn lemma_one_pole_between(y1: int, x: int, c: int)
    requires
        0 <= c <= ONE,
    ensures
        y1 <= x ==> y1 <= one_pole_step_spec(y1, x, c) <= x,
        x <= y1 ==> x <= one_pole_step_spec(y1, x, c) <= y1,
{
    let d = x - y1;
    lemma_mul_fix_contract(d, c);
    assert(mul_fix_spec(c, d) == mul_fix_spec(d, c)) by {
        assert(c * d == d * c) by (nonlinear_arith);
        assert(-(c * d) == -(d * c)) by (nonlinear_arith);
    }
}

impl ChannelState {
    /// Advance this channel's filter by one sample: output and new state are
    /// exactly the resonant one-pole update of the old state.
    pub fn step(&mut self, x: i64, c: i64, q: i64) -> (y: i64)
        requires
            old(self).wf(),
            -SAMPLE_MAX <= x <= SAMPLE_MAX,
            0 <= c <= ONE,
            0 <= q <= RES_FB_MAX,
        ensures
            y == resonant_step_spec(
                old(self).y1 as int,
                old(self).y2 as int,
                x as int,
                c as int,
                q as int,
            ),
            final(self).y1 == y,
            final(self).y2 == old(self).y1,
            final(self).wf(),
    {
        let d: i64 = self.y1 - self.y2;
        proof {
            lemma_mul_fix_contract(d as int, ONE as int);
            // |fb| <= 2 * |d|: the feedback factor is at most 2.0.
            lemma_fb_bound(q as int, d as int);
        }
        let fb: i64 = mul_fix(q, d);
        let xi: i64 = clamp_fix(x + fb, -STATE_MAX, STATE_MAX);
        proof {
            lemma_mul_fix_contract(xi - self.y1, c as int);
            assert(mul_fix_spec(c as int, (xi - self.y1) as int) == mul_fix_spec(
                (xi - self.y1) as int,
                c as int,
            )) by {
                let a = (xi - self.y1) as int;
                assert(c * a == a * c) by (nonlinear_arith);
                assert(-(c * a) == -(a * c)) by (nonlinear_arith);
            }
        }
        let di: i64 = xi - self.y1;
        let y: i64 = clamp_fix(self.y1 + mul_fix(c, di), -STATE_MAX, STATE_MAX);
        self.y2 = self.y1;
        self.y1 = y;
        y
    }
}

/// The feedback term is at most twice the output change in magnitude.
proof fn lemma_fb_bound(q: int, d: int)
    requires
        0 <= q <= RES_FB_MAX,
    ensures
        d >= 0 ==> 0 <= mul_fix_spec(q, d) <= 2 * d,
        d < 0 ==> 2 * d <= mul_fix_spec(q, d) <= 0,
{
    let u = ONE as int;
    assert(mul_fix_spec(q, d) == mul_fix_spec(d, q)) by {
        assert(q * d == d * q) by (nonlinear_arith);
        assert(-(q * d) == -(d * q)) by (nonlinear_arith);
    }
    if d >= 0 {
        assert(0 <= d * q <= (2 * d) * u) by (nonlinear_arith)
            requires 0 <= q <= 2 * u, 0 <= d,
        ;
        vstd::arithmetic::div_mod::lemma_div_is_ordered(d * q, (2 * d) * u, u);
        assert(((2 * d) * u) / u == 2 * d) by {
            assert((2 * d) * u == u * (2 * d)) by (nonlinear_arith);
            vstd::arithmetic::div_mod::lemma_div_multiples_vanish(2 * d, u);
        }
        vstd::arithmetic::div_mod::lemma_div_is_ordered(0, d * q, u);
    } else {
        assert(d * q <= 0) by (nonlinear_arith)
            requires 0 <= q, d < 0,
        ;
        if d * q == 0 {
        } else {
            assert(0 < -(d * q) <= (-(2 * d)) * u) by (nonlinear_arith)
                requires 0 <= q <= 2 * u, d < 0, d * q < 0,
            ;
            vstd::arithmetic::div_mod::lemma_div_is_ordered(-(d * q), (-(2 * d)) * u, u);
            assert(((-(2 * d)) * u) / u == -(2 * d)) by {
                assert((-(2 * d)) * u == u * (-(2 * d))) by (nonlinear_arith);
                vstd::arithmetic::div_mod::lemma_div_multiples_vanish(-(2 * d), u);
            }
            vstd::arithmetic::div_mod::lemma_div_is_ordered(0, -(d * q), u);
        }
    }
}

/// With the resonance feedback at zero, the resonant update is exactly the
/// plain one-pole low-pass update, sample for sample.
pub proof fn lemma_zero_resonance_matches_one_pole(y1: int, y2: int, x: int, c: int)
    requires
        -STATE_MAX <= y1 <= STATE_MAX,
        -SAMPLE_MAX <= x <= SAMPLE_MAX,
        0 <= c <= ONE,
    ensures
        resonant_step_spec(y1, y2, x, c, 0) == one_pole_step_spec(y1, x, c),
{
    lemma_mul_fix_zero(y1 - y2);
    assert(clamp_spec(x, -(STATE_MAX as int), STATE_MAX as int) == x);
    lemma_one_pole_between(y1, x, c);
    assert(mul_fix_spec(c, x - y1) == mul_fix_spec(x - y1, c)) by {
        let a = x - y1;
        assert(c * a == a * c) by (nonlinear_arith);
        assert(-(c * a) == -(a * c)) by (nonlinear_arith);
    }
}

/// At DC steady state the filter is transparent: if the state already equals
/// the (DC) input, the output is exactly that input, for every coefficient
/// and every resonance setting. The filter has no DC gain error.
pub proof fn lemma_dc_steady_state(x: int, c: int, q: int)
    requires
        -STATE_MAX <= x <= STATE_MAX,
        0 <= c <= ONE,
        0 <= q <= RES_FB_MAX,
    ensures
        resonant_step_spec(x, x, x, c, q) == x,
{
    lemma_mul_fix_zero(q);
    assert(mul_fix_spec(q, x - x) == 0) by {
        assert(q * 0 == 0) by (nonlinear_arith);
    }
    assert(clamp_spec(x + 0, -(STATE_MAX as int), STATE_MAX as int) == x);
    lemma_mul_fix_zero(c);
    assert(mul_fix_spec(c, x - x) == 0) by {
        assert(c * 0 == 0) by (nonlinear_arith);
    }
}

/// As the coefficient reaches its upper end (cutoff toward the Nyquist
/// rate), the plain filter passes the input through unchanged: the output
/// converges to the DC input with no gain error, whatever the state.
pub proof fn lemma_full_coefficient_tracks_input(y1: int, y2: int, x: int)
    requires
        -STATE_MAX <= y1 <= STATE_MAX,
        -SAMPLE_MAX <= x <= SAMPLE_MAX,
        -STATE_MAX <= x <= STATE_MAX,
    ensures
        resonant_step_spec(y1, y2, x, ONE as int, 0) == x,
{
    lemma_zero_resonance_matches_one_pole(y1, y2, x, ONE as int);
    lemma_mul_fix_one(x - y1);
}

/// A quiet filter stays quiet: zero state and zero input give zero output
/// and leave the state at zero, for every parameter setting.
pub proof fn lemma_quiet_filter(c: int, q: int)
    ensures
        resonant_step_spec(0, 0, 0, c, q) == 0,
{
    lemma_mul_fix_zero(q);
    lemma_mul_fix_zero(c);
    assert(clamp_spec(0, -(STATE_MAX as int), STATE_MAX as int) == 0);
}

} // verus!
