//! The per-sample DSP core: smoothed parameter snapshots feeding the chain
//! filter -> saturation -> gain, one independent filter state per channel,
//! identical parameter values for all channels of a sample.

use vstd::prelude::*;

verus! {

use vstd::arithmetic::div_mod::lemma_div_is_ordered;
use crate::coeff::cutoff_coeff;
use crate::coeff::cutoff_coeff_spec;
use crate::filter::ChannelState;
use crate::filter::RES_FB_MAX;
use crate::filter::resonant_step_spec;
use crate::filter::lemma_quiet_filter;
use crate::fixed::ONE;
use crate::fixed::SAMPLE_MAX;
use crate::fixed::clamp_spec;
use crate::fixed::clamp_fix;
use crate::fixed::mul_fix_spec;
use crate::fixed::lemma_mul_fix_zero;
use crate::level::MIN_LEVEL_DB;
use crate::level::apply_gain;
use crate::level::db_to_linear;
use crate::level::db_to_linear_spec;
use crate::sat::saturate;
use crate::sat::saturate_spec;
use crate::sat::lemma_quiet_saturation;
use crate::smooth::Param;

/// Lowest cutoff the filter parameter admits, in Hz.
pub const MIN_CUTOFF_HZ: i64 = 20;

/// Highest cutoff the filter parameter admits, in Hz.
pub const MAX_CUTOFF_HZ: i64 = 20000;

/// Lowest sample rate the core accepts: any nonzero rate. Cutoffs above
/// the Nyquist frequency fold down to it in the coefficient computation.
pub const MIN_SAMPLE_RATE: u32 = 1;

/// Highest resonance value: 100.0 in Q24 (the control is 0-100, linear).
pub const RES_MAX: i64 = 1677721600;

/// Cutoff smoothing ramp: Hz per sample.
pub const CUTOFF_STEP_HZ: i64 = 16;

/// Resonance smoothing ramp: resonance units per sample (1.0 in Q24).
pub const RES_STEP: i64 = 16777216;

/// Drive and gain smoothing ramp: 1/256 of full scale per sample.
pub const LEVEL_STEP: i64 = 65536;

/// The resonance control maps linearly onto the feedback factor:
/// 100.0 of resonance gives a feedback of 2.0.
pub open spec fn res_feedback_spec(r: int) -> int {
    r / 50
}

/// Feedback factor for a resonance control value.
pub fn res_feedback(r: i64) -> (q: i64)
    requires
        0 <= r <= RES_MAX,
    ensures
        q == res_feedback_spec(r as int),
        0 <= q <= RES_FB_MAX,
{
    proof {
        lemma_div_is_ordered(r as int, RES_MAX as int, 50);
    }
    ((r as u64) / 50) as i64
}

/// A sample's way through the chain: filter, then saturation, then gain.
pub open spec fn chain_out_spec(st: ChannelState, x: int, c: int, q: int, dr: int, g: int) -> int {
    mul_fix_spec(saturate_spec(resonant_step_spec(st.y1 as int, st.y2 as int, x, c, q), dr), g)
}

/// The channel state after the sample has passed the filter.
pub open spec fn chain_state_spec(st: ChannelState, x: int, c: int, q: int) -> ChannelState {
    ChannelState {
        y1: resonant_step_spec(st.y1 as int, st.y2 as int, x, c, q) as i64,
        y2: st.y1,
    }
}

/// A quiet chain stays quiet: with zero state and zero input, the output is
/// zero and the state stays zero, for every parameter setting.
pub proof fn lemma_quiet_chain(st: ChannelState, c: int, q: int, dr: int, g: int)
    requires
        st.is_zero(),
    ensures
        chain_out_spec(st, 0, c, q, dr, g) == 0,
        chain_state_spec(st, 0, c, q).is_zero(),
{
    lemma_quiet_filter(c, q);
    lemma_quiet_saturation(dr);
    lemma_mul_fix_zero(g);
}

/// A parameter after its ramp has advanced `n` samples.
pub open spec fn param_after_spec(p: Param, n: nat) -> Param
    decreases n,
{
    if n == 0 {
        p
    } else {
        param_after_spec(p, (n - 1) as nat).advanced_spec()
    }
}

/// The whole DSP core: sample rate, the four smoothed control parameters,
/// the cached filter coefficient, and one filter state per channel.
pub struct DspCore {
    /// Samples per second of the stream being processed.
    pub sample_rate: u32,
    /// Cutoff frequency in Hz, smoothed.
    pub cutoff: Param,
    /// Resonance control (0-100 in Q24), smoothed.
    pub resonance: Param,
    /// Saturation drive as a linear Q24 multiplier in `[0, ONE]`, smoothed.
    pub drive: Param,
    /// Output gain as a linear Q24 multiplier in `[0, ONE]`, smoothed.
    pub gain: Param,
    /// The filter coefficient for the current smoothed cutoff; kept in sync
    /// whenever the cutoff moves.
    pub coeff_q24: i64,
    /// Per-channel filter memory, owned exclusively by this core.
    pub states: Vec<ChannelState>,
}

impl DspCore {
    /// The parameter ranges, the sample-rate floor, and the cached
    /// coefficient agreeing with the current smoothed cutoff.
    pub open spec fn params_wf(self) -> bool {
        &&& self.sample_rate >= MIN_SAMPLE_RATE
        &&& self.cutoff.wf()
        &&& self.cutoff.lo == MIN_CUTOFF_HZ
        &&& self.cutoff.hi == MAX_CUTOFF_HZ
        &&& self.resonance.wf()
        &&& self.resonance.lo == 0
        &&& self.resonance.hi == RES_MAX
        &&& self.drive.wf()
        &&& self.drive.lo == 0
        &&& self.drive.hi == ONE
        &&& self.gain.wf()
        &&& self.gain.lo == 0
        &&& self.gain.hi == ONE
        &&& self.coeff_q24 == cutoff_coeff_spec(self.cutoff.value_spec(), self.sample_rate as int)
        &&& 0 <= self.coeff_q24 <= ONE
    }

    pub open spec fn wf(self) -> bool {
        &&& self.params_wf()
        &&& forall|i: int| 0 <= i < self.states@.len() ==> (#[trigger] self.states@[i]).wf()
    }

    /// All channel filter memory at zero.
    pub open spec fn states_zero(self) -> bool {
        forall|i: int| 0 <= i < self.states@.len() ==> (#[trigger] self.states@[i]).is_zero()
    }

    /// The coefficient the next processed sample will see, after the cutoff
    /// ramp advances.
    pub open spec fn next_coeff_spec(self) -> int {
        cutoff_coeff_spec(self.cutoff.sm.next_value_spec(), self.sample_rate as int)
    }

    /// The feedback factor the next processed sample will see.
    pub open spec fn next_q_spec(self) -> int {
        res_feedback_spec(self.resonance.sm.next_value_spec())
    }

    /// The drive the next processed sample will see.
    pub open spec fn next_drive_spec(self) -> int {
        self.drive.sm.next_value_spec()
    }

    /// The gain the next processed sample will see.
    pub open spec fn next_gain_spec(self) -> int {
        self.gain.sm.next_value_spec()
    }

    /// The coefficient in effect during (zero-based) frame `n` of a block:
    /// the cutoff ramp has advanced `n + 1` times.
    pub open spec fn coeff_at_spec(self, n: nat) -> int {
        cutoff_coeff_spec(
            param_after_spec(self.cutoff, n + 1).value_spec(),
            self.sample_rate as int,
        )
    }

    /// The resonance feedback factor in effect during frame `n` of a block.
    pub open spec fn q_at_spec(self, n: nat) -> int {
        res_feedback_spec(param_after_spec(self.resonance, n + 1).value_spec())
    }

    /// The drive in effect during frame `n` of a block.
    pub open spec fn drive_at_spec(self, n: nat) -> int {
        param_after_spec(self.drive, n + 1).value_spec()
    }

    /// The gain in effect during frame `n` of a block.
    pub open spec fn gain_at_spec(self, n: nat) -> int {
        param_after_spec(self.gain, n + 1).value_spec()
    }

    /// Channel `ch`'s filter state after the first `n` frames of `input`
    /// have passed the chain, starting from this core.
    pub open spec fn state_after_spec(self, input: Seq<Vec<i64>>, ch: int, n: nat) -> ChannelState
        decreases n,
    {
        if n == 0 {
            self.states@[ch]
        } else {
            chain_state_spec(
                self.state_after_spec(input, ch, (n - 1) as nat),
                input[n - 1]@[ch] as int,
                self.coeff_at_spec((n - 1) as nat),
                self.q_at_spec((n - 1) as nat),
            )
        }
    }

    /// Channel `ch`'s output sample in frame `n` of `input`: the chain
    /// applied to the state folded through the earlier frames, with the
    /// parameter values of frame `n`.
    pub open spec fn out_at_spec(self, input: Seq<Vec<i64>>, ch: int, n: nat) -> int {
        chain_out_spec(
            self.state_after_spec(input, ch, n),
            input[n as int]@[ch] as int,
            self.coeff_at_spec(n),
            self.q_at_spec(n),
            self.drive_at_spec(n),
            self.gain_at_spec(n),
        )
    }

    /// A fresh core: parameters at their defaults (cutoff fully open,
    /// no resonance, drive and gain at 0 dB), all channel states zero.
    pub fn new(sample_rate: u32, channels: usize) -> (core: DspCore)
        requires
            sample_rate >= MIN_SAMPLE_RATE,
        ensures
            core.wf(),
            core.states_zero(),
            core.states@.len() == channels,
            core.sample_rate == sample_rate,
            core.cutoff.value_spec() == MAX_CUTOFF_HZ as int,
            core.resonance.value_spec() == 0,
            core.drive.value_spec() == ONE as int,
            core.gain.value_spec() == ONE as int,
    {
        let cutoff = Param::new(MIN_CUTOFF_HZ, MAX_CUTOFF_HZ, MAX_CUTOFF_HZ, CUTOFF_STEP_HZ);
        let resonance = Param::new(0, RES_MAX, 0, RES_STEP);
        let drive = Param::new(0, ONE, ONE, LEVEL_STEP);
        let gain = Param::new(0, ONE, ONE, LEVEL_STEP);
        let coeff_q24 = cutoff_coeff(MAX_CUTOFF_HZ as u32, sample_rate);
        let states = zero_states(channels);
        DspCore { sample_rate, cutoff, resonance, drive, gain, coeff_q24, states }
    }

    /// The bus-negotiation rule: accept a configuration exactly when the
    /// input channel count equals the output channel count and is nonzero.
    pub fn accepts_bus_config(num_inputs: u32, num_outputs: u32) -> (ok: bool)
        ensures
            ok <==> (num_inputs == num_outputs && num_inputs > 0),
    {
        num_inputs == num_outputs && num_inputs > 0
    }

    /// Stream (re)initialization: adopt the new sample rate, recompute the
    /// coefficient for it, and allocate fresh zeroed state per channel.
    pub fn initialize(&mut self, sample_rate: u32, channels: usize)
        requires
            old(self).params_wf(),
            sample_rate >= MIN_SAMPLE_RATE,
        ensures
            final(self).wf(),
            final(self).states_zero(),
            final(self).states@.len() == channels,
            final(self).sample_rate == sample_rate,
            final(self).cutoff == old(self).cutoff,
            final(self).resonance == old(self).resonance,
            final(self).drive == old(self).drive,
            final(self).gain == old(self).gain,
    {
        self.sample_rate = sample_rate;
        let f_hz = self.cutoff.sm.current;
        self.coeff_q24 = cutoff_coeff(f_hz as u32, sample_rate);
        self.states = zero_states(channels);
    }

    /// Zero all per-channel filter memory, leaving parameters untouched.
    pub fn reset(&mut self)
        requires
            old(self).wf(),
        ensures
            final(self).wf(),
            final(self).states_zero(),
            final(self).states@.len() == old(self).states@.len(),
            final(self).sample_rate == old(self).sample_rate,
            final(self).cutoff == old(self).cutoff,
            final(self).resonance == old(self).resonance,
            final(self).drive == old(self).drive,
            final(self).gain == old(self).gain,
            final(self).coeff_q24 == old(self).coeff_q24,
    {
        let n = self.states.len();
        let mut i: usize = 0;
        while i < n
            invariant
                i <= n,
                self.states@.len() == n,
                forall|k: int| 0 <= k < i ==> (#[trigger] self.states@[k]).is_zero(),
                forall|k: int| 0 <= k < i ==> (#[trigger] self.states@[k]).wf(),
                forall|k: int| i <= k < n ==> self.states@[k] == old(self).states@[k],
                self.sample_rate == old(self).sample_rate,
                self.cutoff == old(self).cutoff,
                self.resonance == old(self).resonance,
                self.drive == old(self).drive,
                self.gain == old(self).gain,
                self.coeff_q24 == old(self).coeff_q24,
            decreases n - i,
        {
            self.states[i] = ChannelState::new();
            i = i + 1;
        }
    }

    /// Set the cutoff automation target, clamped into `[20, 20000]` Hz.
    pub fn set_cutoff_hz(&mut self, hz: i64)
        requires
            old(self).wf(),
        ensures
            final(self).wf(),
            final(self).cutoff.sm.target == clamp_spec(
                hz as int,
                MIN_CUTOFF_HZ as int,
                MAX_CUTOFF_HZ as int,
            ),
            final(self).cutoff.sm.current == old(self).cutoff.sm.current,
            final(self).resonance == old(self).resonance,
            final(self).drive == old(self).drive,
            final(self).gain == old(self).gain,
            final(self).states == old(self).states,
            final(self).sample_rate == old(self).sample_rate,
            final(self).coeff_q24 == old(self).coeff_q24,
    {
        self.cutoff.set_target(hz);
    }

    /// Set the resonance automation target, clamped into `[0, 100]` (Q24).
    pub fn set_resonance(&mut self, r: i64)
        requires
            old(self).wf(),
        ensures
            final(self).wf(),
            final(self).resonance.sm.target == clamp_spec(r as int, 0, RES_MAX as int),
            final(self).resonance.sm.current == old(self).resonance.sm.current,
            final(self).cutoff == old(self).cutoff,
            final(self).drive == old(self).drive,
            final(self).gain == old(self).gain,
            final(self).states == old(self).states,
            final(self).sample_rate == old(self).sample_rate,
            final(self).coeff_q24 == old(self).coeff_q24,
    {
        self.resonance.set_target(r);
    }

    /// Set the saturation drive from a level in whole decibels; the level is
    /// clamped into `[-127, 0]` dB and mapped to its linear multiplier.
    pub fn set_drive_db(&mut self, db: i64)
        requires
            old(self).wf(),
        ensures
            final(self).wf(),
            final(self).drive.sm.target == db_to_linear_spec(
                clamp_spec(db as int, MIN_LEVEL_DB as int, 0),
            ),
            final(self).drive.sm.current == old(self).drive.sm.current,
            final(self).cutoff == old(self).cutoff,
            final(self).resonance == old(self).resonance,
            final(self).gain == old(self).gain,
            final(self).states == old(self).states,
            final(self).sample_rate == old(self).sample_rate,
            final(self).coeff_q24 == old(self).coeff_q24,
    {
        let dbc = clamp_fix(db, MIN_LEVEL_DB, 0);
        let lin = db_to_linear(dbc);
        self.drive.set_target(lin);
    }

    /// Set the output gain from a level in whole decibels; the level is
    /// clamped into `[-127, 0]` dB and mapped to its linear multiplier.
    pub fn set_gain_db(&mut self, db: i64)
        requires
            old(self).wf(),
        ensures
            final(self).wf(),
            final(self).gain.sm.target == db_to_linear_spec(
                clamp_spec(db as int, MIN_LEVEL_DB as int, 0),
            ),
            final(self).gain.sm.current == old(self).gain.sm.current,
            final(self).cutoff == old(self).cutoff,
            final(self).resonance == old(self).resonance,
            final(self).drive == old(self).drive,
            final(self).states == old(self).states,
            final(self).sample_rate == old(self).sample_rate,
            final(self).coeff_q24 == old(self).coeff_q24,
    {
        let dbc = clamp_fix(db, MIN_LEVEL_DB, 0);
        let lin = db_to_linear(dbc);
        self.gain.set_target(lin);
    }

    /// Process one sample frame in place: advance every parameter ramp by
    /// exactly one step, refresh the coefficient if the cutoff moved, and
    /// send each channel's sample through filter, saturation and gain with
    /// identical parameter values. Every output lies in `[-ONE, ONE]`.
    pub fn process_sample(&mut self, frame: &mut Vec<i64>)
        requires
            old(self).wf(),
            old(frame)@.len() == old(self).states@.len(),
            forall|j: int|
                0 <= j < old(frame)@.len() ==> -SAMPLE_MAX <= #[trigger] old(frame)@[j]
                    <= SAMPLE_MAX,
        ensures
            final(self).wf(),
            final(frame)@.len() == old(frame)@.len(),
            final(self).states@.len() == old(self).states@.len(),
            final(self).sample_rate == old(self).sample_rate,
            final(self).cutoff == old(self).cutoff.advanced_spec(),
            final(self).resonance == old(self).resonance.advanced_spec(),
            final(self).drive == old(self).drive.advanced_spec(),
            final(self).gain == old(self).gain.advanced_spec(),
            final(self).coeff_q24 == old(self).next_coeff_spec(),
            forall|j: int|
                0 <= j < old(frame)@.len() ==> #[trigger] final(frame)@[j] == chain_out_spec(
                    old(self).states@[j],
                    old(frame)@[j] as int,
                    old(self).next_coeff_spec(),
                    old(self).next_q_spec(),
                    old(self).next_drive_spec(),
                    old(self).next_gain_spec(),
                ),
            forall|j: int|
                0 <= j < old(frame)@.len() ==> #[trigger] final(self).states@[j]
                    == chain_state_spec(
                    old(self).states@[j],
                    old(frame)@[j] as int,
                    old(self).next_coeff_spec(),
                    old(self).next_q_spec(),
                ),
            forall|j: int|
                0 <= j < old(frame)@.len() ==> -ONE <= #[trigger] final(frame)@[j] <= ONE,
    {
        let prev_hz = self.cutoff.sm.current;
        let f_hz = self.cutoff.next();
        if f_hz != prev_hz {
            self.coeff_q24 = cutoff_coeff(f_hz as u32, self.sample_rate);
        }
        let c = self.coeff_q24;
        let res = self.resonance.next();
        let q = res_feedback(res);
        let dr = self.drive.next();
        let g = self.gain.next();
        let n = self.states.len();
        let mut j: usize = 0;
        while j < n
            invariant
                j <= n,
                self.states@.len() == n,
                frame@.len() == n,
                old(frame)@.len() == n,
                old(self).states@.len() == n,
                0 <= c <= ONE,
                0 <= q <= RES_FB_MAX,
                0 <= dr <= ONE,
                0 <= g <= ONE,
                c == old(self).next_coeff_spec(),
                q == old(self).next_q_spec(),
                dr == old(self).next_drive_spec(),
                g == old(self).next_gain_spec(),
                self.sample_rate == old(self).sample_rate,
                self.cutoff == old(self).cutoff.advanced_spec(),
                self.resonance == old(self).resonance.advanced_spec(),
                self.drive == old(self).drive.advanced_spec(),
                self.gain == old(self).gain.advanced_spec(),
                self.coeff_q24 == c,
                self.params_wf(),
                forall|k: int|
                    0 <= k < j ==> #[trigger] frame@[k] == chain_out_spec(
                        old(self).states@[k],
                        old(frame)@[k] as int,
                        c as int,
                        q as int,
                        dr as int,
                        g as int,
                    ),
                forall|k: int|
                    0 <= k < j ==> #[trigger] self.states@[k] == chain_state_spec(
                        old(self).states@[k],
                        old(frame)@[k] as int,
                        c as int,
                        q as int,
                    ),
                forall|k: int| 0 <= k < j ==> -ONE <= #[trigger] frame@[k] <= ONE,
                forall|k: int| 0 <= k < j ==> (#[trigger] self.states@[k]).wf(),
                forall|k: int| j <= k < n ==> #[trigger] frame@[k] == old(frame)@[k],
                forall|k: int| j <= k < n ==> #[trigger] self.states@[k] == old(self).states@[k],
                forall|k: int|
                    0 <= k < n ==> -SAMPLE_MAX <= #[trigger] old(frame)@[k] <= SAMPLE_MAX,
                forall|k: int| 0 <= k < n ==> (#[trigger] old(self).states@[k]).wf(),
            decreases n - j,
        {
            let x = frame[j];
            let mut st = self.states[j];
            let y = st.step(x, c, q);
            let s = saturate(y, dr);
            let out = apply_gain(s, g);
            self.states[j] = st;
            frame[j] = out;
            j = j + 1;
        }
    }

    /// Process a block of sample frames in place. The result is exactly the
    /// per-sample chain folded over the block: every parameter ramp advances
    /// one step per frame, each channel's filter state threads through the
    /// frames in order, and every output sample is the chain of the folded
    /// state and the frame's parameter values. Every output lies in
    /// `[-ONE, ONE]`, and a block of silence through a quiet core yields
    /// silence and leaves every filter state at zero.
    pub fn process_block(&mut self, frames: &mut Vec<Vec<i64>>)
        requires
            old(self).wf(),
            forall|f: int|
                0 <= f < old(frames)@.len() ==> (#[trigger] old(frames)@[f])@.len() == old(
                    self,
                ).states@.len(),
            forall|f: int, j: int|
                0 <= f < old(frames)@.len() && 0 <= j < old(frames)@[f]@.len()
                    ==> -SAMPLE_MAX <= #[trigger] old(frames)@[f]@[j] <= SAMPLE_MAX,
        ensures
            final(self).wf(),
            final(frames)@.len() == old(frames)@.len(),
            final(self).states@.len() == old(self).states@.len(),
            final(self).sample_rate == old(self).sample_rate,
            final(self).cutoff == param_after_spec(old(self).cutoff, old(frames)@.len()),
            final(self).resonance == param_after_spec(old(self).resonance, old(frames)@.len()),
            final(self).drive == param_after_spec(old(self).drive, old(frames)@.len()),
            final(self).gain == param_after_spec(old(self).gain, old(frames)@.len()),
            forall|ch: int|
                0 <= ch < old(self).states@.len() ==> #[trigger] final(self).states@[ch] == old(
                    self,
                ).state_after_spec(old(frames)@, ch, old(frames)@.len()),
            forall|f: int|
                0 <= f < old(frames)@.len() ==> (#[trigger] final(frames)@[f])@.len() == old(
                    self,
                ).states@.len(),
            forall|f: int, j: int|
                0 <= f < old(frames)@.len() && 0 <= j < old(self).states@.len()
                    ==> #[trigger] final(frames)@[f]@[j] == old(self).out_at_spec(
                    old(frames)@,
                    j,
                    f as nat,
                ),
            forall|f: int, j: int|
                0 <= f < old(frames)@.len() && 0 <= j < final(frames)@[f]@.len()
                    ==> -ONE <= #[trigger] final(frames)@[f]@[j] <= ONE,
            (old(self).states_zero() && (forall|f: int, j: int|
                0 <= f < old(frames)@.len() && 0 <= j < old(frames)@[f]@.len()
                    ==> #[trigger] old(frames)@[f]@[j] == 0)) ==> (final(self).states_zero() && (
            forall|f: int, j: int|
                0 <= f < old(frames)@.len() && 0 <= j < final(frames)@[f]@.len()
                    ==> #[trigger] final(frames)@[f]@[j] == 0)),
    {
        let ghost quiet_in = old(self).states_zero() && (forall|f: int, j: int|
            0 <= f < old(frames)@.len() && 0 <= j < old(frames)@[f]@.len()
                ==> #[trigger] old(frames)@[f]@[j] == 0);
        let ghost inp = old(frames)@;
        let n = frames.len();
        let mut f: usize = 0;
        while f < n
            invariant
                f <= n,
                frames@.len() == n,
                inp == old(frames)@,
                old(frames)@.len() == n,
                self.wf(),
                self.states@.len() == old(self).states@.len(),
                self.sample_rate == old(self).sample_rate,
                self.cutoff == param_after_spec(old(self).cutoff, f as nat),
                self.resonance == param_after_spec(old(self).resonance, f as nat),
                self.drive == param_after_spec(old(self).drive, f as nat),
                self.gain == param_after_spec(old(self).gain, f as nat),
                forall|ch: int|
                    0 <= ch < self.states@.len() ==> #[trigger] self.states@[ch] == old(
                        self,
                    ).state_after_spec(inp, ch, f as nat),
                forall|k: int|
                    0 <= k < n ==> (#[trigger] old(frames)@[k])@.len() == old(self).states@.len(),
                forall|k: int, j: int|
                    0 <= k < n && 0 <= j < old(frames)@[k]@.len() ==> -SAMPLE_MAX
                        <= #[trigger] old(frames)@[k]@[j] <= SAMPLE_MAX,
                forall|k: int| f <= k < n ==> #[trigger] frames@[k] == old(frames)@[k],
                forall|k: int|
                    0 <= k < f ==> (#[trigger] frames@[k])@.len() == old(self).states@.len(),
                forall|k: int, j: int|
                    0 <= k < f && 0 <= j < old(self).states@.len() ==> #[trigger] frames@[k]@[j]
                        == old(self).out_at_spec(inp, j, k as nat),
                forall|k: int, j: int|
                    0 <= k < f && 0 <= j < frames@[k]@.len() ==> -ONE
                        <= #[trigger] frames@[k]@[j] <= ONE,
                quiet_in == (old(self).states_zero() && (forall|k: int, j: int|
                    0 <= k < n && 0 <= j < old(frames)@[k]@.len()
                        ==> #[trigger] old(frames)@[k]@[j] == 0)),
                quiet_in ==> self.states_zero(),
                quiet_in ==> (forall|k: int, j: int|
                    0 <= k < f && 0 <= j < frames@[k]@.len() ==> #[trigger] frames@[k]@[j] == 0),
            decreases n - f,
        {
            let ghost pre = *self;
            let fr = frame_at_mut(frames, f);
            let ghost pre_frame = *fr;
            proof {
                if quiet_in {
                    lemma_quiet_frame(*self, *fr);
                }
            }
            self.process_sample(fr);
            proof {
                let fi = f as int;
                pre.cutoff.lemma_advanced_param();
                pre.resonance.lemma_advanced_param();
                pre.drive.lemma_advanced_param();
                pre.gain.lemma_advanced_param();
                assert(param_after_spec(old(self).cutoff, (f + 1) as nat)
                    == pre.cutoff.advanced_spec());
                assert(param_after_spec(old(self).resonance, (f + 1) as nat)
                    == pre.resonance.advanced_spec());
                assert(param_after_spec(old(self).drive, (f + 1) as nat)
                    == pre.drive.advanced_spec());
                assert(param_after_spec(old(self).gain, (f + 1) as nat)
                    == pre.gain.advanced_spec());
                // the one-sample parameter values of this call are the
                // block-level values of frame f
                assert(pre.next_coeff_spec() == old(self).coeff_at_spec(f as nat));
                assert(pre.next_q_spec() == old(self).q_at_spec(f as nat));
                assert(pre.next_drive_spec() == old(self).drive_at_spec(f as nat));
                assert(pre.next_gain_spec() == old(self).gain_at_spec(f as nat));
                assert(pre_frame == inp[fi]);
                assert forall|ch: int| 0 <= ch < self.states@.len() implies #[trigger] self
                    .states@[ch] == old(self).state_after_spec(inp, ch, (f + 1) as nat) by {
                    assert(pre.states@[ch] == old(self).state_after_spec(inp, ch, f as nat));
                    assert(self.states@[ch] == chain_state_spec(
                        pre.states@[ch],
                        pre_frame@[ch] as int,
                        pre.next_coeff_spec(),
                        pre.next_q_spec(),
                    ));
                }
                assert forall|j: int| 0 <= j < old(self).states@.len() implies #[trigger] frames@[
                    fi]@[j] == old(self).out_at_spec(inp, j, f as nat) by {
                    assert(pre.states@[j] == old(self).state_after_spec(inp, j, f as nat));
                }
            }
            f = f + 1;
        }
    }
}

/// A mutable borrow of one frame of a block.
fn frame_at_mut(frames: &mut Vec<Vec<i64>>, i: usize) -> (fr: &mut Vec<i64>)
    requires
        i < old(frames)@.len(),
    ensures
        *fr == old(frames)@[i as int],
        final(frames)@ == old(frames)@.update(i as int, *final(fr)),
{
    &mut frames[i]
}

/// A fresh vector of zeroed channel states.
fn zero_states(channels: usize) -> (v: Vec<ChannelState>)
    ensures
        v@.len() == channels,
        forall|i: int| 0 <= i < channels ==> (#[trigger] v@[i]).is_zero(),
        forall|i: int| 0 <= i < channels ==> (#[trigger] v@[i]).wf(),
{
    let mut v: Vec<ChannelState> = Vec::new();
    let mut i: usize = 0;
    while i < channels
        invariant
            i <= channels,
            v@.len() == i,
            forall|k: int| 0 <= k < i ==> (#[trigger] v@[k]).is_zero(),
            forall|k: int| 0 <= k < i ==> (#[trigger] v@[k]).wf(),
        decreases channels - i,
    {
        v.push(ChannelState::new());
        i = i + 1;
    }
    v
}

/// In a quiet core every channel of a silent frame stays silent through the
/// whole chain.
proof fn lemma_quiet_frame(core: DspCore, frame: Vec<i64>)
    requires
        core.states_zero(),
        frame@.len() == core.states@.len(),
        forall|j: int| 0 <= j < frame@.len() ==> #[trigger] frame@[j] == 0,
    ensures
        forall|j: int|
            0 <= j < frame@.len() ==> #[trigger] chain_out_spec(
                core.states@[j],
                frame@[j] as int,
                core.next_coeff_spec(),
                core.next_q_spec(),
                core.next_drive_spec(),
                core.next_gain_spec(),
            ) == 0,
        forall|j: int|
            0 <= j < frame@.len() ==> (#[trigger] chain_state_spec(
                core.states@[j],
                frame@[j] as int,
                core.next_coeff_spec(),
                core.next_q_spec(),
            )).is_zero(),
{
    assert forall|j: int| 0 <= j < frame@.len() implies #[trigger] chain_out_spec(
        core.states@[j],
        frame@[j] as int,
        core.next_coeff_spec(),
        core.next_q_spec(),
        core.next_drive_spec(),
        core.next_gain_spec(),
    ) == 0 by {
        assert(frame@[j] == 0);
        assert(core.states@[j].is_zero());
        lemma_quiet_chain(
            core.states@[j],
            core.next_coeff_spec(),
            core.next_q_spec(),
            core.next_drive_spec(),
            core.next_gain_spec(),
        );
    }
    assert forall|j: int| 0 <= j < frame@.len() implies (#[trigger] chain_state_spec(
        core.states@[j],
        frame@[j] as int,
        core.next_coeff_spec(),
        core.next_q_spec(),
    )).is_zero() by {
        assert(frame@[j] == 0);
        assert(core.states@[j].is_zero());
        lemma_quiet_chain(
            core.states@[j],
            core.next_coeff_spec(),
            core.next_q_spec(),
            core.next_drive_spec(),
            core.next_gain_spec(),
        );
    }
}

} // verus!
