//! A physical-model vocal synthesizer core: a glottal excitation pipeline, a
//! one-dimensional transmission-line model of the vocal tract with a branching
//! nasal passage, a resampler between the inner simulation clock and the host
//! clock, and the control layer (voice stack, timed routines, smoothed
//! parameters) that feeds it.
//!
//! All signal values are held in a signed fixed-point format (`fixed::FIX_ONE`
//! is 1.0), so every contract is stated over exact integer arithmetic.

pub mod benihora;
pub mod fixed;
pub mod glottis;
pub mod managed;
pub mod noise;
pub mod recorder;
pub mod resample;
pub mod routine;
pub mod shape;
pub mod synth;
pub mod timer;
pub mod tract;
pub mod voice;
pub mod wave;
pub mod wiggle;

use vstd::prelude::*;

verus! {

/// Linear interpolation between `a` and `b` by `t` (fixed-point, `t` in
/// `[0, FIX_ONE]`).
pub fn lerp(a: i64, b: i64, t: i64) -> (r: i64)
    requires
        -crate::fixed::FIX_BOUND <= a <= crate::fixed::FIX_BOUND,
        -crate::fixed::FIX_BOUND <= b <= crate::fixed::FIX_BOUND,
        0 <= t <= crate::fixed::FIX_ONE,
    ensures
        r == crate::fixed::flerp(a as int, b as int, t as int),
{
    crate::fixed::lerp_fix(a, b, t)
}

} // verus!
