//! The tract geometry: shapes, diameters, reflections and block updates.

use benihora::fixed::FIX_ONE;
use benihora::shape::{
    move_towards, Diameter, Reflections, ShapeSource, Turbulence, MOUTH_CELLS, NOSE_CELLS,
    VELUM_MAX, VELUM_MIN,
};
use benihora::tract::Tract;

const INNER_RATE: i64 = 3145728000; // 48 kHz in fixed point

#[test]
fn rest_profile_values() {
    let source = ShapeSource::new(MOUTH_CELLS, NOSE_CELLS);
    let mut d = Diameter::new(&source);
    source.compute_diameter(&mut d);
    // back of the mouth keeps the rest profile
    assert_eq!(d.mouth[0], 39322);
    assert_eq!(d.mouth[8], 72090);
    // the tongue span is carved but stays positive and below the window
    for i in 0..MOUTH_CELLS {
        assert!(d.mouth[i] > 0);
        assert!(d.mouth[i] <= 262144);
    }
    // the velum rests nearly shut; the nose profile is fixed
    assert_eq!(d.nose[0], VELUM_MIN);
    assert_eq!(d.nose[1], 33703);
    assert_eq!(d.nose[14], 124518);
    assert_eq!(d.nose[27], 39791);
}

#[test]
fn tongue_clamp_stays_in_bands() {
    let source = ShapeSource::new(MOUTH_CELLS, NOSE_CELLS);
    let (i1, d1) = source.tongue_clamp(0, 0);
    assert!(i1 >= 786432 && i1 <= 1900544);
    assert!(d1 >= 134349 && d1 <= 229376);
    let (i2, d2) = source.tongue_clamp(99999999, 99999999);
    assert!(i2 >= 786432 && i2 <= 1900544);
    assert_eq!(d2, 229376);
    // a mid position passes through unchanged
    let (i3, d3) = source.tongue_clamp(845414, 159252);
    assert_eq!(i3, 845414);
    assert_eq!(d3, 159252);
}

#[test]
fn reflections_bounded_and_junction_sums_to_minus_one() {
    let source = ShapeSource::new(MOUTH_CELLS, NOSE_CELLS);
    let mut d = Diameter::new(&source);
    source.compute_diameter(&mut d);
    let mut r = Reflections::new(MOUTH_CELLS, NOSE_CELLS);
    d.compute_reflections(&mut r);
    for i in 0..MOUTH_CELLS - 1 {
        assert!(r.mouth[i] >= -FIX_ONE && r.mouth[i] <= FIX_ONE);
    }
    for i in 0..NOSE_CELLS - 1 {
        assert!(r.nose[i] >= -FIX_ONE && r.nose[i] <= FIX_ONE);
    }
    let sum = r.junction_left + r.junction_right + r.junction_nose;
    // the three-way scattering coefficients sum to minus one, up to the
    // rounding of the three divisions
    assert!(sum <= -FIX_ONE && sum >= -FIX_ONE - 2);
}

#[test]
fn move_towards_rates() {
    assert_eq!(move_towards(0, 100, 30, 10), 30);
    assert_eq!(move_towards(100, 0, 30, 10), 90);
    assert_eq!(move_towards(95, 100, 30, 10), 100);
    assert_eq!(move_towards(5, 0, 30, 10), 0);
}

#[test]
fn velum_chases_its_target() {
    let mut t = Tract::new(1, INNER_RATE, 1);
    assert_eq!(t.current_diameter.nose[0], VELUM_MIN);
    t.set_velum_target(VELUM_MAX);
    for _ in 0..200 {
        t.update_block(1311);
    }
    assert_eq!(t.current_diameter.nose[0], VELUM_MAX);
    t.set_velum_target(VELUM_MIN);
    for _ in 0..200 {
        t.update_block(1311);
    }
    assert_eq!(t.current_diameter.nose[0], VELUM_MIN);
}

#[test]
fn released_occlusion_seeds_a_transient() {
    let mut t = Tract::new(1, INNER_RATE, 1);
    // a deep constriction at cell twenty: effective depth zero, an occlusion
    t.source.other_constrictions.push((20 * FIX_ONE, 6554));
    t.update_diameter();
    for _ in 0..400 {
        t.update_block(1311);
    }
    assert!(t.current_diameter.mouth.iter().any(|&c| c <= 0));
    assert_eq!(t.state.transients.len(), 0);
    // release it: the mouth reopens while the velum is shut, so a plosive
    // transient joins the queue
    t.source.other_constrictions[0].1 = 655360;
    t.update_diameter();
    for _ in 0..400 {
        t.update_block(1311);
    }
    assert!(t.current_diameter.mouth.iter().all(|&c| c > 0));
    assert_eq!(t.state.transients.len(), 1);
}

#[test]
fn turbulence_pool_tracks_constrictions() {
    let mut t = Tract::new(1, INNER_RATE, 1);
    // a fricative-band constriction gains a source
    t.source.other_constrictions.push((20 * FIX_ONE, 32768));
    t.update_diameter();
    assert_eq!(t.state.turbulences.len(), 1);
    assert!(t.state.turbulences[0].on);
    // widening it past the band switches the source off
    t.source.other_constrictions[0].1 = 655360;
    t.update_diameter();
    assert_eq!(t.state.turbulences.len(), 1);
    assert!(!t.state.turbulences[0].on);
}

#[test]
fn turbulence_strength_peaks_inside_band() {
    let narrow = Turbulence::new(FIX_ONE, 19661);
    let mid = Turbulence::new(FIX_ONE, 32768);
    let wide = Turbulence::new(FIX_ONE, 45875);
    assert_eq!(narrow.strength, 0);
    assert!(mid.strength > 0);
    assert_eq!(wide.strength, 0);
}
