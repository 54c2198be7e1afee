//! End-to-end checks of the fixed-point DSP core: the filter, saturation and
//! gain stages, the dB mapping, parameter smoothing, and block processing.

use suletta_fx::coeff::cutoff_coeff;
use suletta_fx::engine::DspCore;
use suletta_fx::filter::one_pole_step;
use suletta_fx::filter::ChannelState;
use suletta_fx::fixed::clamp_fix;
use suletta_fx::fixed::mul_fix;
use suletta_fx::fixed::ONE;
use suletta_fx::level::apply_gain;
use suletta_fx::level::db_to_linear;
use suletta_fx::sat::saturate;
use suletta_fx::sat::soft_clip;
use suletta_fx::smooth::Param;

fn to_f(x: i64) -> f64 {
    x as f64 / ONE as f64
}

#[test]
fn gain_stage_is_exact_product() {
    // output == input * gain under the Q24 product, exactly
    assert_eq!(apply_gain(ONE / 2, ONE / 2), ONE / 4);
    assert_eq!(apply_gain(ONE, ONE), ONE);
    assert_eq!(apply_gain(-ONE, ONE), -ONE);
    assert_eq!(apply_gain(12345678, 0), 0);
    // rounding is toward zero on both signs
    assert_eq!(apply_gain(3, ONE / 2), 1);
    assert_eq!(apply_gain(-3, ONE / 2), -1);
}

#[test]
fn gain_floor_is_silence() {
    // -127 dB maps to an amplitude that is zero for every practical purpose
    let g = db_to_linear(-127);
    assert!(g >= 0 && g <= 16);
    for &x in &[ONE, -ONE, 4 * ONE, -4 * ONE, 123456] {
        let out = apply_gain(x, g);
        assert!(to_f(out).abs() < 1e-5);
    }
}

#[test]
fn db_mapping_hits_known_points() {
    assert_eq!(db_to_linear(0), ONE);
    // -6 dB is very nearly half amplitude
    assert!((to_f(db_to_linear(-6)) - 0.501187).abs() < 1e-3);
    // -20 dB is a factor of ten down
    assert!((to_f(db_to_linear(-20)) - 0.1).abs() < 1e-3);
    // the mapping is monotone decreasing
    let mut prev = db_to_linear(0);
    for db in 1..=127i64 {
        let v = db_to_linear(-db);
        assert!(v <= prev);
        prev = v;
    }
}

#[test]
fn filter_dc_steady_state_is_transparent() {
    // with the state already at the DC input, the output equals the input
    // for every coefficient and resonance setting
    let x = ONE / 2;
    for &c in &[0, ONE / 10, ONE / 2, ONE] {
        for &q in &[0, ONE, 2 * ONE] {
            let mut st = ChannelState { y1: x, y2: x };
            let y = st.step(x, c, q);
            assert_eq!(y, x);
            assert_eq!(st.y1, x);
        }
    }
}

#[test]
fn full_coefficient_passes_input_through() {
    // at the coefficient's upper end the (non-resonant) filter tracks the
    // input in a single step, from any state
    let mut st = ChannelState { y1: -3 * ONE, y2: ONE };
    let y = st.step(ONE / 3, ONE, 0);
    assert_eq!(y, ONE / 3);
}

#[test]
fn zero_resonance_matches_plain_one_pole() {
    // the resonant update at resonance zero equals the plain reference
    // implementation sample for sample
    let c = cutoff_coeff(2500, 48000);
    let mut st = ChannelState { y1: 0, y2: 0 };
    let mut y_ref: i64 = 0;
    let mut x: i64 = ONE / 3;
    for n in 0..200i64 {
        // a deterministic, sign-alternating test signal
        x = -x + (n % 7) * 1000;
        let y = st.step(x, c, 0);
        y_ref = one_pole_step(y_ref, x, c);
        assert_eq!(y, y_ref);
    }
}

#[test]
fn impulse_response_decays_geometrically() {
    // sample rate 48000, cutoff 1000 Hz, resonance 0, unit impulse input:
    // the coefficient matches 1 - exp(-2*pi*1000/48000) and the tail decays
    // with ratio (1 - coefficient)
    let c = cutoff_coeff(1000, 48000);
    assert!((to_f(c) - 0.1226942).abs() < 1e-3);
    let cf = to_f(c);
    let mut st = ChannelState { y1: 0, y2: 0 };
    let y0 = st.step(ONE, c, 0);
    assert_eq!(y0, c);
    let mut prev = y0;
    for _ in 0..24 {
        let y = st.step(0, c, 0);
        let expected = (1.0 - cf) * prev as f64;
        assert!((y as f64 - expected).abs() <= 2.0);
        prev = y;
    }
}

#[test]
fn saturator_output_is_always_bounded() {
    // for every drive and input amplitude the output stays inside [-1, 1]
    let drives = [0, db_to_linear(-127), ONE / 4, ONE / 2, ONE];
    let mut u = -4 * ONE;
    while u <= 4 * ONE {
        for &g in &drives {
            let out = saturate(u, g);
            assert!(-ONE <= out && out <= ONE);
        }
        u += ONE / 3 + 1;
    }
}

#[test]
fn saturator_full_drive_clips_overrange_input() {
    // drive at 0 dB (its maximum) with an input of 2.0 is held at 1.0
    let g = db_to_linear(0);
    assert_eq!(g, ONE);
    assert_eq!(saturate(2 * ONE, g), ONE);
    assert_eq!(saturate(-2 * ONE, g), -ONE);
}

#[test]
fn saturator_min_drive_is_passthrough() {
    // drive exactly zero passes every in-range sample through unchanged
    let mut u = -ONE;
    while u <= ONE {
        assert_eq!(saturate(u, 0), u);
        u += ONE / 7 + 1;
    }
    // the lowest dB drive is indistinguishable from unity processing
    let g = db_to_linear(-127);
    let mut v = -ONE;
    while v <= ONE {
        assert!((saturate(v, g) - v).abs() <= 32);
        v += ONE / 7 + 1;
    }
}

#[test]
fn saturator_shapes_the_soft_region() {
    // inside the soft region the cubic curve compresses toward the ceiling:
    // at 0.5 the shaped sample is 0.6875 = 1.5*0.5 - 0.5*0.125, exactly
    assert_eq!(saturate(ONE / 2, ONE), 11534336);
    assert_eq!(soft_clip(ONE / 2), 11534336);
    // silence stays silence at every drive
    for &g in &[0, ONE / 2, ONE] {
        assert_eq!(saturate(0, g), 0);
    }
}

#[test]
fn smoother_ramps_and_stops_on_target() {
    let mut p = Param::new(0, 100, 0, 10);
    p.set_target(55);
    let mut got = Vec::new();
    for _ in 0..7 {
        got.push(p.next());
    }
    assert_eq!(got, vec![10, 20, 30, 40, 50, 55, 55]);
    p.set_target(-5);
    // out-of-range targets are clamped by the parameter definition
    assert_eq!(p.next(), 45);
}

#[test]
fn smoother_never_leaves_range() {
    let mut p = Param::new(-8, 8, 0, 3);
    p.set_target(100);
    for _ in 0..10 {
        let v = p.next();
        assert!(-8 <= v && v <= 8);
    }
    assert_eq!(p.next(), 8);
}

#[test]
fn clamp_behaves_on_all_sides() {
    assert_eq!(clamp_fix(5, 0, 10), 5);
    assert_eq!(clamp_fix(-5, 0, 10), 0);
    assert_eq!(clamp_fix(15, 0, 10), 10);
    assert_eq!(mul_fix(ONE, ONE), ONE);
    assert_eq!(mul_fix(-ONE, ONE), -ONE);
    assert_eq!(mul_fix(0, 123), 0);
}

#[test]
fn bus_config_accepts_only_matched_nonzero() {
    assert!(DspCore::accepts_bus_config(2, 2));
    assert!(DspCore::accepts_bus_config(1, 1));
    assert!(!DspCore::accepts_bus_config(2, 1));
    assert!(!DspCore::accepts_bus_config(0, 0));
}

#[test]
fn silent_block_stays_silent() {
    // all-zero input through a fresh core gives all-zero output and leaves
    // every channel's filter state at zero, whatever the parameters ramp to
    let mut core = DspCore::new(48000, 2);
    core.set_cutoff_hz(500);
    core.set_resonance(80 * ONE);
    core.set_drive_db(-3);
    core.set_gain_db(-6);
    let mut frames: Vec<Vec<i64>> = (0..64).map(|_| vec![0i64, 0i64]).collect();
    core.process_block(&mut frames);
    for frame in &frames {
        for &s in frame {
            assert_eq!(s, 0);
        }
    }
    for st in &core.states {
        assert_eq!(st.y1, 0);
        assert_eq!(st.y2, 0);
    }
}

#[test]
fn processed_block_is_bounded() {
    let mut core = DspCore::new(48000, 2);
    core.set_resonance(100 * ONE);
    core.set_cutoff_hz(5000);
    let mut frames: Vec<Vec<i64>> = (0..256)
        .map(|n| {
            let x = if n % 2 == 0 { 2 * ONE } else { -2 * ONE };
            vec![x, -x]
        })
        .collect();
    core.process_block(&mut frames);
    for frame in &frames {
        for &s in frame {
            assert!(-ONE <= s && s <= ONE);
        }
    }
}

#[test]
fn cutoff_move_refreshes_coefficient() {
    let mut core = DspCore::new(48000, 1);
    assert_eq!(core.coeff_q24, cutoff_coeff(20000, 48000));
    // one smoothing step down from 20000 Hz is 19984 Hz
    core.set_cutoff_hz(1000);
    let mut frame = vec![0i64];
    core.process_sample(&mut frame);
    assert_eq!(core.cutoff.sm.current, 19984);
    assert_eq!(core.coeff_q24, cutoff_coeff(19984, 48000));
}

#[test]
fn reset_zeroes_filter_memory() {
    let mut core = DspCore::new(48000, 2);
    let mut frames: Vec<Vec<i64>> = (0..8).map(|_| vec![ONE, -ONE]).collect();
    core.process_block(&mut frames);
    assert!(core.states.iter().any(|st| st.y1 != 0));
    core.reset();
    for st in &core.states {
        assert_eq!(st.y1, 0);
        assert_eq!(st.y2, 0);
    }
}

#[test]
fn initialize_adopts_rate_and_channels() {
    let mut core = DspCore::new(48000, 2);
    core.initialize(96000, 4);
    assert_eq!(core.sample_rate, 96000);
    assert_eq!(core.states.len(), 4);
    assert_eq!(core.coeff_q24, cutoff_coeff(20000, 96000));
}

#[test]
fn coefficient_extremes_stay_in_range() {
    // both cutoff extremes at both rate extremes give a coefficient in
    // [0, ONE]; nothing blows up at the edges
    for &(f, r) in &[(20u32, 40000u32), (20000, 40000), (20, 192000), (20000, 192000)] {
        let c = cutoff_coeff(f, r);
        assert!(0 <= c && c <= ONE);
    }
    // and the mapping tracks the analytic value closely at a midpoint
    let c = cutoff_coeff(20000, 48000);
    assert!((to_f(c) - 0.9270509).abs() < 1e-3);
}

#[test]
fn saturator_has_no_steps_at_full_drive() {
    // at maximum drive, consecutive nearby inputs give nearby outputs: the
    // curve's slope never exceeds 1.5, so no stair-stepping can appear
    let step = 1000i64;
    let mut u = -4 * ONE;
    while u <= 4 * ONE - step {
        let jump = (saturate(u + step, ONE) - saturate(u, ONE)).abs();
        assert!(jump <= step + step / 2);
        u += step;
    }
}

#[test]
fn chain_composes_filter_then_saturation_then_gain() {
    // one processed sample equals the three public stages applied by hand,
    // with the parameter values of that sample
    let mut core = DspCore::new(48000, 1);
    let x = 3 * ONE / 2;
    let mut frame = vec![x];
    core.process_sample(&mut frame);
    let c = cutoff_coeff(20000, 48000);
    let mut st = ChannelState { y1: 0, y2: 0 };
    let y = st.step(x, c, 0);
    let expected = apply_gain(saturate(y, ONE), ONE);
    assert_eq!(frame[0], expected);
    assert_eq!(core.states[0], st);
}

#[test]
fn gain_floor_value_is_three_units() {
    // the proven floor: -127 dB is exactly 3 Q24 units
    assert_eq!(db_to_linear(-127), 3);
    // so the gain stage keeps any admissible sample within 12 units of zero
    for &x in &[4 * ONE, -4 * ONE, ONE, -1] {
        assert!(apply_gain(x, 3).abs() <= 12);
    }
}

#[test]
fn low_rates_fold_cutoff_to_nyquist() {
    // a cutoff request above the Nyquist frequency folds down to it:
    // 20000 Hz at a 22050 Hz rate behaves as 11025 Hz, t = pi
    let c = cutoff_coeff(20000, 22050);
    assert!((to_f(c) - 0.956786).abs() < 1e-3);
    assert_eq!(cutoff_coeff(20000, 22050), cutoff_coeff(11025, 22050));
    // low-rate cores process normally
    let mut core = DspCore::new(22050, 2);
    let mut frames: Vec<Vec<i64>> = (0..32).map(|_| vec![ONE, -ONE]).collect();
    core.process_block(&mut frames);
    for frame in &frames {
        for &s in frame {
            assert!(-ONE <= s && s <= ONE);
        }
    }
    let mut tiny = DspCore::new(8000, 1);
    let mut one_frame = vec![vec![ONE / 2]];
    tiny.process_block(&mut one_frame);
    assert!(-ONE <= one_frame[0][0] && one_frame[0][0] <= ONE);
}
