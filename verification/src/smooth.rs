//! Parameter smoothing: a linear ramp toward an automation target, advanced
//! by exactly one step per sample, and a bounded parameter built on it.
//!
//! Each call to `next` consumes exactly one smoothing step, so automation
//! stays sample-accurate; the smoothed value moves monotonically toward the
//! target and never leaves the parameter's `[lo, hi]` range.

use vstd::prelude::*;

verus! {

use crate::fixed::clamp_spec;
use crate::fixed::clamp_fix;

/// Largest magnitude a smoothed value, target or step may take: 2^40.
/// Keeps every ramp update free of overflow with room to spare.
pub const PARAM_LIMIT: i64 = 1099511627776;

/// Linear-ramp smoother: per sample the value moves by at most `step`
/// toward `target` and stops exactly on it.
pub struct Smoother {
    /// The current smoothed value.
    pub current: i64,
    /// The automation target the value ramps toward.
    pub target: i64,
    /// Ramp increment per sample; non-negative.
    pub step: i64,
}

impl Smoother {
    pub open spec fn wf(self) -> bool {
        &&& -PARAM_LIMIT <= self.current <= PARAM_LIMIT
        &&& -PARAM_LIMIT <= self.target <= PARAM_LIMIT
        &&& 0 <= self.step <= PARAM_LIMIT
    }

    /// The smoothed value after one step: one `step` closer to the target,
    /// never overshooting it.
    pub open spec fn next_value_spec(self) -> int {
        if self.current < self.target {
            if self.current + self.step > self.target {
                self.target as int
            } else {
                self.current + self.step
            }
        } else {
            if self.current - self.step < self.target {
                self.target as int
            } else {
                self.current - self.step
            }
        }
    }

    /// Advance the ramp by exactly one sample and return the new value.
    /// The value progresses monotonically toward the target: its distance
    /// to the target never grows, and it stays between the old value and
    /// the target.
    pub fn next(&mut self) -> (v: i64)
        requires
            old(self).wf(),
        ensures
            v == old(self).next_value_spec(),
            final(self).current == v,
            final(self).target == old(self).target,
            final(self).step == old(self).step,
            final(self).wf(),
            old(self).current <= old(self).target ==> old(self).current <= v <= old(self).target,
            old(self).current >= old(self).target ==> old(self).target <= v <= old(self).current,
    {
        let v: i64 = if self.current < self.target {
            if self.target - self.current > self.step {
                self.current + self.step
            } else {
                self.target
            }
        } else {
            if self.current - self.target > self.step {
                self.current - self.step
            } else {
                self.target
            }
        };
        self.current = v;
        v
    }
}

/// A bounded control parameter: a closed range `[lo, hi]` and a smoother
/// whose value and target always lie inside it. Out-of-range targets are
/// clamped here, by the owning parameter definition.
pub struct Param {
    /// Lower bound of the parameter's range.
    pub lo: i64,
    /// Upper bound of the parameter's range.
    pub hi: i64,
    /// The smoothing state for this parameter.
    pub sm: Smoother,
}

impl Param {
    pub open spec fn wf(self) -> bool {
        &&& -PARAM_LIMIT <= self.lo <= self.hi <= PARAM_LIMIT
        &&& self.lo <= self.sm.current <= self.hi
        &&& self.lo <= self.sm.target <= self.hi
        &&& 0 <= self.sm.step <= PARAM_LIMIT
    }

    /// The current smoothed value.
    pub open spec fn value_spec(self) -> int {
        self.sm.current as int
    }

    /// The parameter after its ramp advances by exactly one sample.
    pub open spec fn advanced_spec(self) -> Param {
        Param {
            lo: self.lo,
            hi: self.hi,
            sm: Smoother {
                current: self.sm.next_value_spec() as i64,
                target: self.sm.target,
                step: self.sm.step,
            },
        }
    }

    /// Advancing preserves well-formedness; the advanced parameter reads
    /// back exactly the one-step ramp value and keeps range, target and step.
    pub proof fn lemma_advanced_param(self)
        requires
            self.wf(),
        ensures
            self.advanced_spec().wf(),
            self.advanced_spec().value_spec() == self.sm.next_value_spec(),
            self.advanced_spec().sm.target == self.sm.target,
            self.advanced_spec().sm.step == self.sm.step,
            self.advanced_spec().lo == self.lo,
            self.advanced_spec().hi == self.hi,
    {
    }

    /// Build a parameter with range `[lo, hi]`, initial (and target) value
    /// `init`, and ramp increment `step`.
    pub fn new(lo: i64, hi: i64, init: i64, step: i64) -> (p: Param)
        requires
            -PARAM_LIMIT <= lo <= init <= hi <= PARAM_LIMIT,
            0 <= step <= PARAM_LIMIT,
        ensures
            p.wf(),
            p.lo == lo,
            p.hi == hi,
            p.sm.current == init,
            p.sm.target == init,
            p.sm.step == step,
    {
        Param { lo, hi, sm: Smoother { current: init, target: init, step } }
    }

    /// Set a new automation target, clamped into the parameter's range.
    pub fn set_target(&mut self, t: i64)
        requires
            old(self).wf(),
        ensures
            final(self).wf(),
            final(self).sm.target == clamp_spec(t as int, old(self).lo as int, old(self).hi as int),
            final(self).sm.current == old(self).sm.current,
            final(self).sm.step == old(self).sm.step,
            final(self).lo == old(self).lo,
            final(self).hi == old(self).hi,
    {
        let lo = self.lo;
        let hi = self.hi;
        self.sm.target = clamp_fix(t, lo, hi);
    }

    /// Advance the smoother by exactly one sample and return the new value,
    /// which stays inside `[lo, hi]`.
    pub fn next(&mut self) -> (v: i64)
        requires
            old(self).wf(),
        ensures
            final(self).wf(),
            v == old(self).sm.next_value_spec(),
            final(self).sm.current == v,
            final(self).sm.target == old(self).sm.target,
            final(self).sm.step == old(self).sm.step,
            final(self).lo == old(self).lo,
            final(self).hi == old(self).hi,
            old(self).lo <= v <= old(self).hi,
    {
        self.sm.next()
    }
}

} // verus!
