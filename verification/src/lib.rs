//! A verified fixed-point DSP core for a small audio effect chain.
//!
//! The signal path is a resonant one-pole low-pass filter, a soft-saturation
//! stage, and a linear gain stage, composed per channel and per sample, with
//! linear-ramp smoothing of the control parameters. All audio math is done in
//! Q24 fixed point (`i64` with 24 fractional bits), so every stage carries an
//! exact contract; converting to and from the host's floating-point buffers is
//! left to the surrounding (unverified) adapter.

pub mod coeff;
pub mod engine;
pub mod filter;
pub mod fixed;
pub mod level;
pub mod sat;
pub mod smooth;
