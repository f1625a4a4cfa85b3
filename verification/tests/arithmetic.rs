//! Exact expected values for the fixed-point primitives.

use benihora::fixed::{
    clamp_fix, cos_turns, div_trunc, exp2_fix, fix_div, fix_mul, lerp_fix, sin_turns, sqrt_fix,
    FIX_ONE,
};
use benihora::timer::IntervalTimer;
use benihora::wave::decay_exec;

#[test]
fn multiply_matches_scaled_product() {
    assert_eq!(fix_mul(FIX_ONE, FIX_ONE), FIX_ONE);
    assert_eq!(fix_mul(32768, 32768), 16384);
    assert_eq!(fix_mul(-32768, 32768), -16384);
    assert_eq!(fix_mul(3, 3), 0);
    assert_eq!(fix_mul(-3, 3), 0);
}

#[test]
fn divide_matches_scaled_quotient() {
    assert_eq!(fix_div(FIX_ONE, FIX_ONE), FIX_ONE);
    assert_eq!(fix_div(FIX_ONE, 131072), 32768);
    assert_eq!(fix_div(-FIX_ONE, 131072), -32768);
    assert_eq!(div_trunc(7, 2), 3);
    assert_eq!(div_trunc(-7, 2), -3);
}

#[test]
fn lerp_endpoints_and_midpoint() {
    assert_eq!(lerp_fix(0, FIX_ONE, 0), 0);
    assert_eq!(lerp_fix(0, FIX_ONE, FIX_ONE), FIX_ONE);
    assert_eq!(lerp_fix(0, FIX_ONE, 32768), 32768);
    assert_eq!(lerp_fix(-FIX_ONE, FIX_ONE, 32768), 0);
}

#[test]
fn clamp_behaviour() {
    assert_eq!(clamp_fix(5, 0, 3), 3);
    assert_eq!(clamp_fix(-5, 0, 3), 0);
    assert_eq!(clamp_fix(2, 0, 3), 2);
}

#[test]
fn cosine_cardinal_points() {
    assert_eq!(cos_turns(0), FIX_ONE);
    assert_eq!(cos_turns(32768), -FIX_ONE);
    // a quarter turn lands within the series' residual of zero
    assert!(cos_turns(16384).abs() < 120);
    // cos of an eighth turn is close to sqrt(1/2)
    assert_eq!(cos_turns(8192), 46341);
    // shifted by a quarter turn, sine of a quarter turn is one
    assert_eq!(sin_turns(16384), FIX_ONE);
}

#[test]
fn square_roots() {
    assert_eq!(sqrt_fix(FIX_ONE), FIX_ONE);
    assert_eq!(sqrt_fix(4 * FIX_ONE), 2 * FIX_ONE);
    assert_eq!(sqrt_fix(0), 0);
    assert_eq!(sqrt_fix(39322), 50764);
}

#[test]
fn powers_of_two() {
    assert_eq!(exp2_fix(0), FIX_ONE);
    assert_eq!(exp2_fix(FIX_ONE), 2 * FIX_ONE);
    assert_eq!(exp2_fix(-FIX_ONE), 32768);
    // half an octave: the quadratic fit stays within a fraction of a cent of sqrt(2)
    let half = exp2_fix(32768);
    assert!((half - 92682).abs() < 16);
}

#[test]
fn interval_timer_cadence() {
    let mut t = IntervalTimer::new_overflowed(4);
    assert!(t.overflowed());
    assert_eq!(t.progress(), 0);
    t.update(1);
    assert!(!t.overflowed());
    assert_eq!(t.time(), 1);
    t.update(1);
    t.update(1);
    t.update(1);
    assert!(t.overflowed());
    assert_eq!(t.time(), 0);
}

#[test]
fn decay_envelope_shape() {
    // zero exponent: no decay
    assert_eq!(decay_exec(0), FIX_ONE);
    // one whole octave: half
    assert_eq!(decay_exec(FIX_ONE), 32768);
    // deep exponents vanish
    assert_eq!(decay_exec(17 * FIX_ONE), 0);
    // monotone between
    assert!(decay_exec(1000) > decay_exec(2000));
}
