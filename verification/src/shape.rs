//! Vocal-tract geometry: the source shape (tongue and constrictions), the
//! smoothed diameters of mouth and nose, and the reflection coefficients
//! derived from them. Diameters are fixed point, in centimetres.

use vstd::prelude::*;
use vstd::arithmetic::div_mod::*;
use crate::fixed::{
    clamp_fix, cos_turns, div_pos, fclamp, fdiv, fix_div, fix_mul, fmul, iabs, lemma_fmul_bound,
    lemma_sdiv_abs, lemma_sdiv_bound, lemma_udiv_bound, spec_cos_turns, sqrt_fix, FIX_BOUND,
    FIX_ONE,
};

verus! {

/// Upper bound on any single diameter value (four centimetres... in fixed
/// point, four times full scale covers every value the shapes produce).
pub const DIAMETER_LIMIT: i64 = 262144;

/// Reflection at a closed end (a cell of zero area): just under one.
pub const CLOSED_REFLECTION: i64 = 65470;

/// Minimum velum opening (0.01 cm).
pub const VELUM_MIN: i64 = 655;

/// Maximum velum opening (0.4 cm).
pub const VELUM_MAX: i64 = 26214;

/// Asymmetric rate limiter: step from `current` toward `target`, by at most
/// `up` when rising and at most `down` when falling.
pub open spec fn spec_move_towards(current: int, target: int, up: int, down: int) -> int {
    if current < target {
        if current + up < target {
            current + up
        } else {
            target
        }
    } else {
        if current - down > target {
            current - down
        } else {
            target
        }
    }
}

/// Step from `current` toward `target` with separate rise and fall rates;
/// exact per `spec_move_towards`, and the result stays between the two.
pub fn move_towards(current: i64, target: i64, up: i64, down: i64) -> (r: i64)
    requires
        -FIX_BOUND <= current <= FIX_BOUND,
        -FIX_BOUND <= target <= FIX_BOUND,
        0 <= up <= FIX_BOUND,
        0 <= down <= FIX_BOUND,
    ensures
        r == spec_move_towards(current as int, target as int, up as int, down as int),
        current <= target ==> current <= r <= target,
        target <= current ==> target <= r <= current,
{
    if current < target {
        let stepped: i64 = current + up;
        if stepped < target {
            stepped
        } else {
            target
        }
    } else {
        let stepped: i64 = current - down;
        if stepped > target {
            stepped
        } else {
            target
        }
    }
}

/// Noise strength of a constriction of the given diameter: zero outside the
/// fricative band (0.3 to 0.7 cm), peaking in between.
pub open spec fn spec_turbulence_strength(d: int) -> int {
    let thinness = fclamp(8 * (45875 - d), 0, FIX_ONE as int);
    let openness = fclamp(30 * (d - 19661), 0, FIX_ONE as int);
    fmul(43254, fmul(thinness, openness))
}

/// The intensity of a turbulence source after one step of size `istep`:
/// fading in while the source is on, out while it is off.
pub open spec fn turb_intensity_next(t: Turbulence, istep: int) -> int {
    if t.on {
        fclamp(t.intensity + istep, 0, FIX_ONE as int)
    } else {
        fclamp(t.intensity - istep, 0, FIX_ONE as int)
    }
}

/// A fricative noise source at a narrow constriction.
#[derive(Clone, Copy)]
pub struct Turbulence {
    pub index: i64,
    pub diameter: i64,
    pub strength: i64,
    pub intensity: i64,
    pub on: bool,
}

impl Turbulence {
    pub open spec fn wf(self) -> bool {
        &&& 0 <= self.index <= 0x1000000
        &&& -DIAMETER_LIMIT <= self.diameter <= DIAMETER_LIMIT
        &&& 0 <= self.strength <= FIX_ONE
        &&& 0 <= self.intensity <= FIX_ONE
    }

    /// A fresh source for a constriction at `index` with the given
    /// `diameter`; it starts silent and switched on.
    pub fn new(index: i64, diameter: i64) -> (r: Turbulence)
        requires
            0 <= index <= 0x1000000,
            -DIAMETER_LIMIT <= diameter <= DIAMETER_LIMIT,
        ensures
            r.wf(),
            r.index == index,
            r.diameter == diameter,
            r.strength == spec_turbulence_strength(diameter as int),
            r.intensity == 0,
            r.on,
    {
        let thinness: i64 = clamp_fix(8 * (45875 - diameter), 0, FIX_ONE);
        let openness: i64 = clamp_fix(30 * (diameter - 19661), 0, FIX_ONE);
        proof {
            lemma_fmul_bound(thinness as int, openness as int, FIX_ONE as int, FIX_ONE as int);
        }
        let inner: i64 = fix_mul(thinness, openness);
        proof {
            lemma_fmul_bound(43254, inner as int, 43254, FIX_ONE as int);
            crate::fixed::lemma_sdiv_abs(43254 * (inner as int), FIX_ONE as int);
        }
        let strength: i64 = fix_mul(43254, inner);
        Turbulence { index, diameter, strength, intensity: 0, on: true }
    }

    /// Fade the noise in while the source is on, out while it is off, one
    /// increment of `istep` per call; the caller sizes the increment so the
    /// full fade takes a tenth of a second.
    pub fn update_intensity(&mut self, istep: i64)
        requires
            old(self).wf(),
            0 <= istep <= FIX_ONE,
        ensures
            final(self).wf(),
            final(self).index == old(self).index,
            final(self).diameter == old(self).diameter,
            final(self).strength == old(self).strength,
            final(self).on == old(self).on,
            final(self).intensity == turb_intensity_next(*old(self), istep as int),
    {
        if self.on {
            self.intensity = clamp_fix(self.intensity + istep, 0, FIX_ONE);
        } else {
            self.intensity = clamp_fix(self.intensity - istep, 0, FIX_ONE);
        }
    }
}

/// Fixed per-tract scalars: the end reflections and the per-step fade.
pub struct OtherParams {
    pub nose_start: usize,
    pub glottal_reflection: i64,
    pub lip_reflection: i64,
    pub fade: i64,
}

/// `n`-fold product of the closed-end reflection with itself: the integer
/// power used for whole steps of the fade exponent.
pub open spec fn pow_fade(n: nat) -> int
    decreases n,
{
    if n == 0 {
        FIX_ONE as int
    } else {
        fmul(pow_fade((n - 1) as nat), 65470)
    }
}

/// The fade factor for a sample rate: 0.999 raised to `96000 / rate`, with
/// the fractional part of the exponent handled by linear interpolation.
pub open spec fn spec_fade(sample_rate: int) -> int {
    let q = fdiv(0x177000000, sample_rate);
    let qint = q / (FIX_ONE as int);
    let qfrac = q % (FIX_ONE as int);
    fmul(pow_fade(qint as nat), (FIX_ONE as int) - fmul(66, qfrac))
}

proof fn lemma_pow_fade_bounds(n: nat)
    ensures
        0 <= pow_fade(n) <= FIX_ONE,
        n >= 1 ==> pow_fade(n) <= 65470,
    decreases n,
{
    if n == 0 {
    } else {
        lemma_pow_fade_bounds((n - 1) as nat);
        lemma_fmul_bound(pow_fade((n - 1) as nat), 65470, FIX_ONE as int, 65470);
        lemma_sdiv_abs(pow_fade((n - 1) as nat) * 65470, FIX_ONE as int);
        lemma_udiv_bound(iabs(pow_fade((n - 1) as nat) * 65470), FIX_ONE as int, 65470);
        assert(iabs(pow_fade((n - 1) as nat) * 65470) <= (FIX_ONE as int) * 65470)
            by (nonlinear_arith)
            requires
                0 <= pow_fade((n - 1) as nat) <= FIX_ONE,
        ;
    }
}

impl OtherParams {
    pub open spec fn wf(self) -> bool {
        &&& self.glottal_reflection == 49152
        &&& self.lip_reflection == -55706
        &&& 0 <= self.fade <= 65535
        &&& 1 <= self.nose_start
    }

    /// The scalars for a tract running at `sample_rate` (fixed point,
    /// hertz): the fade dissipates slightly more at lower rates, normalized
    /// to a 96 kHz reference.
    pub fn new(nose_start: usize, sample_rate: i64) -> (r: OtherParams)
        requires
            1 <= nose_start,
            98304000 <= sample_rate <= FIX_BOUND,
        ensures
            r.wf(),
            r.nose_start == nose_start,
            r.fade == spec_fade(sample_rate as int),
    {
        let ghost s: int = FIX_ONE as int;
        let q: i64 = long_div_fix(0x177000000, sample_rate);
        proof {
            lemma_div_pos_is_pos(0x177000000 * s, sample_rate as int);
            lemma_udiv_bound(0x177000000 * s, sample_rate as int, 64 * s);
            assert(0x177000000 * s <= (sample_rate as int) * (64 * s))
                by (nonlinear_arith)
                requires
                    98304000 <= sample_rate,
                    s == 65536,
            ;
            assert(0x177000000 * s >= (sample_rate as int) * 24000) by (nonlinear_arith)
                requires
                    sample_rate <= 0x400000000,
                    s == 65536,
            ;
            lemma_div_multiples_vanish(24000, sample_rate as int);
            lemma_div_is_ordered((sample_rate as int) * 24000, 0x177000000 * s, sample_rate as int);
        }
        let qint: i64 = div_pos(q, FIX_ONE);
        let qfrac: i64 = q - qint * FIX_ONE;
        proof {
            lemma_fundamental_div_mod(q as int, s);
            lemma_mod_bound(q as int, s);
        }
        let mut pow: i64 = FIX_ONE;
        let mut n: i64 = 0;
        proof {
            lemma_pow_fade_bounds(0);
        }
        while n < qint
            invariant
                0 <= n <= qint,
                qint <= 64,
                pow == pow_fade(n as nat),
                0 <= pow <= FIX_ONE,
            decreases qint - n,
        {
            proof {
                lemma_pow_fade_bounds((n + 1) as nat);
            }
            pow = fix_mul(pow, 65470);
            n = n + 1;
        }
        proof {
            lemma_fmul_bound(66, qfrac as int, 66, s);
            lemma_sdiv_abs(66 * (qfrac as int), s);
            lemma_udiv_bound(66 * (qfrac as int), s, 66);
            assert(66 * (qfrac as int) <= s * 66) by (nonlinear_arith)
                requires
                    0 <= qfrac <= s,
            ;
            lemma_pow_fade_bounds(qint as nat);
        }
        let frac_scale: i64 = FIX_ONE - fix_mul(66, qfrac);
        let fade: i64 = fix_mul(pow, frac_scale);
        proof {
            lemma_fmul_bound(pow as int, frac_scale as int, FIX_ONE as int, FIX_ONE as int);
            lemma_sdiv_abs((pow as int) * (frac_scale as int), s);
            if qint >= 1 {
                assert((pow as int) * (frac_scale as int) <= 65470 * s) by (nonlinear_arith)
                    requires
                        0 <= pow <= 65470,
                        0 <= frac_scale <= s,
                ;
                lemma_udiv_bound((pow as int) * (frac_scale as int), s, 65470);
            } else {
                assert(qfrac >= 24000);
                assert(fmul(66, qfrac as int) >= 24) by {
                    assert(66 * (qfrac as int) >= 24 * s + 24) by (nonlinear_arith)
                        requires
                            qfrac >= 24000,
                            s == 65536,
                    ;
                    lemma_div_is_ordered(24 * s + 24, 66 * (qfrac as int), s);
                    lemma_div_multiples_vanish(24, s);
                    lemma_div_plus_one(24 * s, s);
                    assert((24 * s + 24) / s >= 24) by {
                        lemma_dividing_sums_is_ge(24 * s, 24, s);
                    }
                }
                assert((pow as int) * (frac_scale as int) <= (s - 24) * s) by (nonlinear_arith)
                    requires
                        0 <= pow <= s,
                        0 <= frac_scale <= s - 24,
                ;
                assert((s - 24) * s == s * (s - 24)) by (nonlinear_arith);
                lemma_udiv_bound((pow as int) * (frac_scale as int), s, s - 24);
            }
            if fade < 0 {
                assert((pow as int) * (frac_scale as int) >= 0) by (nonlinear_arith)
                    requires
                        pow >= 0,
                        frac_scale >= 0,
                ;
                lemma_div_pos_is_pos((pow as int) * (frac_scale as int), s);
            }
        }
        OtherParams {
            nose_start,
            glottal_reflection: 49152,
            lip_reflection: -55706,
            fade,
        }
    }
}

/// `(a + b) / d >= a / d` for non-negative `b`: splitting a dividend can
/// only lower the quotient of its first part.
proof fn lemma_dividing_sums_is_ge(a: int, b: int, d: int)
    requires
        d >= 1,
        a >= 0,
        b >= 0,
        a % d == 0,
    ensures
        (a + b) / d >= a / d,
{
    lemma_div_is_ordered(a, a + b, d);
}

/// Fixed-point division with a wide dividend, for ratio computations whose
/// numerator exceeds the ordinary operand window.
fn long_div_fix(a: i64, b: i64) -> (r: i64)
    requires
        0 <= a <= 0x40000000000,
        1 <= b,
    ensures
        r == fdiv(a as int, b as int),
        0 <= r,
{
    proof {
        assert(0 <= (a as u128) * (FIX_ONE as u128) <= 0x400000000000000) by (nonlinear_arith)
            requires
                0 <= a <= 0x40000000000,
                FIX_ONE == 65536,
        ;
    }
    let p: u128 = (a as u128) * (FIX_ONE as u128);
    let q: u128 = p / (b as u128);
    proof {
        lemma_div_nonincreasing(p as int, b as int);
        lemma_div_pos_is_pos(p as int, b as int);
        assert(p as int == (a as int) * (FIX_ONE as int));
        assert(q as int == ((a as int) * (FIX_ONE as int)) / (b as int));
        assert((a as int) * (FIX_ONE as int) >= 0) by (nonlinear_arith)
            requires
                a >= 0,
        ;
        assert(fdiv(a as int, b as int) == ((a as int) * (FIX_ONE as int)) / (b as int));
        assert(p as int <= 0x400000000000000) by (nonlinear_arith)
            requires
                0 <= a <= 0x40000000000,
                p as int == (a as int) * (FIX_ONE as int),
                FIX_ONE == 65536,
        ;
        assert(q <= 0x400000000000000) by {
            lemma_div_is_ordered(p as int, 0x400000000000000, b as int);
            lemma_div_nonincreasing(0x400000000000000, b as int);
        }
    }
    let r: i64 = q as i64;
    proof {
        assert(r as int == q as int);
    }
    r
}

/// Number of mouth cells.
pub const MOUTH_CELLS: usize = 44;

/// Number of nose cells.
pub const NOSE_CELLS: usize = 28;

/// Default tongue position: index.
pub const DEFAULT_TONGUE_INDEX: i64 = 845414;

/// Default tongue position: diameter.
pub const DEFAULT_TONGUE_DIAMETER: i64 = 159252;

/// Smallest tongue diameter.
pub const TONGUE_INNER: i64 = 134349;

/// Largest tongue diameter.
pub const TONGUE_OUTER: i64 = 229376;

/// Smallest tongue index (two cells past the blade).
pub const TONGUE_INDEX_MIN: i64 = 786432;

/// Largest tongue index (three cells short of the tip).
pub const TONGUE_INDEX_MAX: i64 = 1900544;

/// The resting mouth profile: narrow at the glottis, widening toward the
/// lips.
pub open spec fn baseline_diameter(i: int) -> int {
    if i < 7 {
        39322
    } else if i < 12 {
        72090
    } else {
        98304
    }
}

/// The resting nose profile: a ridge rising from the velum and tapering to
/// the nostrils, capped at 1.9 cm.
pub open spec fn nose_baseline(i: int) -> int {
    let d = (i * (FIX_ONE as int)) / 14;
    let v = if d < FIX_ONE {
        26214 + fmul(104858, d)
    } else {
        32768 + fmul(98304, 2 * (FIX_ONE as int) - d)
    };
    if v > 124518 {
        124518
    } else {
        v
    }
}

/// The tongue position after the clamp: diameter into its band, and index
/// into a window around the centre that narrows as the tongue widens.
pub open spec fn spec_tongue_clamp(index: int, diameter: int) -> (int, int) {
    let fp = fclamp(fdiv((TONGUE_OUTER as int) - diameter, 95027), 0, FIX_ONE as int);
    let curve = fclamp(
        crate::fixed::isqrt(fp * (FIX_ONE as int)) - fmul(13107, fmul(fp, fp) - fp),
        0,
        FIX_ONE as int,
    );
    let out = fmul(curve, 557056);
    (
        fclamp(index, 1343488 - out, 1343488 + out),
        fclamp(diameter, TONGUE_INNER as int, TONGUE_OUTER as int),
    )
}

/// Mouth and nose geometry sources: tongue position, the fixed rest
/// profile, and the list of other constrictions.
pub struct ShapeSource {
    pub length: usize,
    pub nose_length: usize,
    pub blade_start: usize,
    pub tip_start: usize,
    pub lip_start: usize,
    pub nose_start: usize,
    pub original_diameter: Vec<i64>,
    pub tongue: (i64, i64),
    pub other_constrictions: Vec<(i64, i64)>,
}

impl ShapeSource {
    pub open spec fn wf(self) -> bool {
        &&& self.length == MOUTH_CELLS
        &&& self.nose_length == NOSE_CELLS
        &&& self.blade_start == 10
        &&& self.tip_start == 32
        &&& self.lip_start == 39
        &&& self.nose_start == 17
        &&& self.original_diameter@.len() == MOUTH_CELLS
        &&& forall|i: int|
            0 <= i < MOUTH_CELLS ==> #[trigger] self.original_diameter@[i] == baseline_diameter(i)
        &&& TONGUE_INDEX_MIN <= self.tongue.0 <= TONGUE_INDEX_MAX
        &&& TONGUE_INNER <= self.tongue.1 <= TONGUE_OUTER
        &&& self.other_constrictions@.len() <= 64
        &&& forall|i: int|
            0 <= i < self.other_constrictions@.len() ==> -0x4000000 <= (
            #[trigger] self.other_constrictions@[i]).0 <= 0x4000000 && -0x4000000 <= (
            self.other_constrictions@[i]).1 <= 0x4000000
    }

    /// The standard geometry: the fixed cell counts, the rest profile, the
    /// default tongue, and no other constrictions yet.
    pub fn new(length: usize, nose_length: usize) -> (r: ShapeSource)
        requires
            length == MOUTH_CELLS,
            nose_length == NOSE_CELLS,
        ensures
            r.wf(),
            r.tongue.0 == DEFAULT_TONGUE_INDEX,
            r.tongue.1 == DEFAULT_TONGUE_DIAMETER,
            r.other_constrictions@.len() == 0,
    {
        let mut original_diameter: Vec<i64> = Vec::new();
        let mut i: usize = 0;
        while i < length
            invariant
                i <= length,
                length == MOUTH_CELLS,
                original_diameter@.len() == i,
                forall|j: int|
                    0 <= j < i ==> #[trigger] original_diameter@[j] == baseline_diameter(j),
            decreases length - i,
        {
            if i < 7 {
                original_diameter.push(39322);
            } else if i < 12 {
                original_diameter.push(72090);
            } else {
                original_diameter.push(98304);
            }
            i = i + 1;
        }
        ShapeSource {
            length,
            nose_length,
            blade_start: 10,
            tip_start: 32,
            lip_start: 39,
            nose_start: length - nose_length + 1,
            original_diameter,
            tongue: (DEFAULT_TONGUE_INDEX, DEFAULT_TONGUE_DIAMETER),
            other_constrictions: Vec::new(),
        }
    }

    /// Clamp a requested tongue position into the reachable region; exact
    /// per `spec_tongue_clamp`, and the result is inside the tongue bands.
    pub fn tongue_clamp(&self, index: i64, diameter: i64) -> (r: (i64, i64))
        requires
            self.wf(),
            -0x200000000 <= index <= 0x200000000,
            -0x200000000 <= diameter <= 0x200000000,
        ensures
            r.0 == spec_tongue_clamp(index as int, diameter as int).0,
            r.1 == spec_tongue_clamp(index as int, diameter as int).1,
            TONGUE_INDEX_MIN <= r.0 <= TONGUE_INDEX_MAX,
            TONGUE_INNER <= r.1 <= TONGUE_OUTER,
    {
        let fp: i64 = clamp_fix(fix_div(TONGUE_OUTER - diameter, 95027), 0, FIX_ONE);
        let root: i64 = sqrt_fix(fp);
        proof {
            lemma_fmul_bound(fp as int, fp as int, FIX_ONE as int, FIX_ONE as int);
        }
        let fpp: i64 = fix_mul(fp, fp);
        proof {
            lemma_fmul_bound(13107, (fpp - fp) as int, 13107, FIX_ONE as int);
            lemma_sdiv_abs(13107 * ((fpp - fp) as int), FIX_ONE as int);
            lemma_udiv_bound(iabs(13107 * ((fpp - fp) as int)), FIX_ONE as int, 13107);
            assert(iabs(13107 * ((fpp - fp) as int)) <= (FIX_ONE as int) * 13107)
                by (nonlinear_arith)
                requires
                    -FIX_ONE <= fpp - fp <= FIX_ONE,
            ;
        }
        let curve: i64 = clamp_fix(root - fix_mul(13107, fpp - fp), 0, FIX_ONE);
        proof {
            lemma_fmul_bound(curve as int, 557056, FIX_ONE as int, 557056);
            lemma_sdiv_abs((curve as int) * 557056, FIX_ONE as int);
            lemma_udiv_bound(iabs((curve as int) * 557056), FIX_ONE as int, 557056);
            assert(iabs((curve as int) * 557056) <= (FIX_ONE as int) * 557056) by (nonlinear_arith)
                requires
                    0 <= curve <= FIX_ONE,
            ;
            assert((curve as int) * 557056 >= 0) by (nonlinear_arith)
                requires
                    curve >= 0,
            ;
            lemma_div_pos_is_pos((curve as int) * 557056, FIX_ONE as int);
        }
        let out: i64 = fix_mul(curve, 557056);
        let ci: i64 = clamp_fix(index, 1343488 - out, 1343488 + out);
        let cd: i64 = clamp_fix(diameter, TONGUE_INNER, TONGUE_OUTER);
        (ci, cd)
    }

    /// Recompute the mouth profile from the rest shape, the tongue and the
    /// other constrictions; every resulting cell lies in the diameter
    /// window. The nose is untouched.
    pub fn compute_diameter(&self, diameter: &mut Diameter)
        requires
            self.wf(),
            old(diameter).wf(),
        ensures
            final(diameter).wf(),
            final(diameter).nose@ == old(diameter).nose@,
            final(diameter).nose_start == old(diameter).nose_start,
            final(diameter).tip_start == old(diameter).tip_start,
            final(diameter).mouth@ == apply_constrictions(
                mouth_after_tongue(self.tongue.0 as int, self.tongue.1 as int),
                self.other_constrictions@,
            ),
    {
        let ghost g0: Seq<i64> = mouth_after_tongue(self.tongue.0 as int, self.tongue.1 as int);
        let mut i: usize = 0;
        while i < MOUTH_CELLS
            invariant
                i <= MOUTH_CELLS,
                self.wf(),
                diameter.mouth@.len() == MOUTH_CELLS,
                diameter.nose@ == old(diameter).nose@,
                diameter.nose_start == old(diameter).nose_start,
                diameter.tip_start == old(diameter).tip_start,
                old(diameter).wf(),
                g0 == mouth_after_tongue(self.tongue.0 as int, self.tongue.1 as int),
                forall|j: int| 0 <= j < i ==> #[trigger] diameter.mouth@[j] == g0[j],
                forall|j: int| 0 <= j < i ==> 0 <= #[trigger] diameter.mouth@[j] <= DIAMETER_LIMIT,
            decreases MOUTH_CELLS - i,
        {
            let v: i64 = if 10 <= i && i < 39 {
                self.tongue_cell(i)
            } else if i < 7 {
                39322
            } else if i < 12 {
                72090
            } else {
                98304
            };
            diameter.mouth.set(i, v);
            i = i + 1;
        }
        proof {
            assert(diameter.mouth@ =~= g0);
        }
        let ghost cs: Seq<(i64, i64)> = self.other_constrictions@;
        let mut c: usize = 0;
        proof {
            assert(cs.subrange(0, 0) =~= Seq::<(i64, i64)>::empty());
        }
        while c < self.other_constrictions.len()
            invariant
                c <= cs.len(),
                self.wf(),
                cs == self.other_constrictions@,
                diameter.mouth@.len() == MOUTH_CELLS,
                diameter.nose@ == old(diameter).nose@,
                diameter.nose_start == old(diameter).nose_start,
                diameter.tip_start == old(diameter).tip_start,
                old(diameter).wf(),
                g0 == mouth_after_tongue(self.tongue.0 as int, self.tongue.1 as int),
                diameter.mouth@ == apply_constrictions(g0, cs.subrange(0, c as int)),
                forall|j: int| 0 <= j < MOUTH_CELLS ==> 0 <= #[trigger] diameter.mouth@[j]
                    <= DIAMETER_LIMIT,
            decreases cs.len() - c,
        {
            let ghost pre: Seq<i64> = diameter.mouth@;
            let (index, raw): (i64, i64) = self.other_constrictions[c];
            let d: i64 = if raw - 19661 > 0 {
                raw - 19661
            } else {
                0
            };
            if 131072 <= index && index < (MOUTH_CELLS as i64) * FIX_ONE && d < 196608 {
                let w: i64 = if index < 1638400 {
                    655360
                } else if index >= 2097152 {
                    327680
                } else {
                    655360 - div_pos(5 * (index - 1638400), 7)
                };
                proof {
                    assert(w == constr_width(index as int));
                    assert(327680 <= w <= 655360) by {
                        if 1638400 <= index < 2097152 {
                            lemma_udiv_bound(5 * ((index - 1638400) as int), 7, 327680);
                            lemma_div_pos_is_pos(5 * ((index - 1638400) as int), 7);
                        }
                    }
                }
                let mut idx: usize = 0;
                while idx < MOUTH_CELLS
                    invariant
                        idx <= MOUTH_CELLS,
                        diameter.mouth@.len() == MOUTH_CELLS,
                        diameter.nose@ == old(diameter).nose@,
                        diameter.nose_start == old(diameter).nose_start,
                        diameter.tip_start == old(diameter).tip_start,
                        0 <= d < 196608,
                        131072 <= index < (MOUTH_CELLS as int) * (FIX_ONE as int),
                        w == constr_width(index as int),
                        327680 <= w <= 655360,
                        forall|j: int| idx <= j < MOUTH_CELLS ==> #[trigger] diameter.mouth@[j]
                            == pre[j],
                        forall|j: int|
                            0 <= j < idx ==> #[trigger] diameter.mouth@[j] == constrict_cell(
                                pre[j] as int,
                                index as int,
                                d as int,
                                w as int,
                                j,
                            ) as i64,
                        forall|j: int| 0 <= j < MOUTH_CELLS ==> 0 <= #[trigger] pre[j]
                            <= DIAMETER_LIMIT,
                        forall|j: int| 0 <= j < MOUTH_CELLS ==> 0 <= #[trigger] diameter.mouth@[j]
                            <= DIAMETER_LIMIT,
                    decreases MOUTH_CELLS - idx,
                {
                    let m: i64 = diameter.mouth[idx];
                    proof {
                        assert(m == pre[idx as int]);
                        assert(0 <= pre[idx as int] <= DIAMETER_LIMIT);
                    }
                    let nv: i64 = constrict_cell_exec(m, index, d, w, idx);
                    diameter.mouth.set(idx, nv);
                    idx = idx + 1;
                }
                proof {
                    assert(diameter.mouth@ =~= apply_constriction(pre, cs[c as int]));
                }
            } else {
                proof {
                    assert(!constriction_active(cs[c as int]));
                    assert(diameter.mouth@ =~= apply_constriction(pre, cs[c as int]));
                }
            }
            proof {
                assert(cs.subrange(0, c as int + 1).drop_last() =~= cs.subrange(0, c as int));
                assert(cs.subrange(0, c as int + 1).last() == cs[c as int]);
            }
            c = c + 1;
        }
        proof {
            assert(cs.subrange(0, cs.len() as int) =~= cs);
        }
    }

    /// One tongue-span cell of the mouth profile; exact per
    /// `tongue_shape_cell`, inside the diameter window.
    fn tongue_cell(&self, i: usize) -> (v: i64)
        requires
            self.wf(),
            10 <= i < 39,
        ensures
            v == tongue_shape_cell(self.tongue.0 as int, self.tongue.1 as int, i as int),
            0 <= v <= DIAMETER_LIMIT,
    {
        let ti: i64 = self.tongue.0;
        let td: i64 = self.tongue.1;
        let turns: i64 = fix_div(ti - (i as i64) * FIX_ONE, 2621440);
        proof {
            lemma_sdiv_abs(((ti - (i as i64) * FIX_ONE) as int) * (FIX_ONE as int), 2621440);
            lemma_udiv_bound(
                iabs(((ti - (i as i64) * FIX_ONE) as int) * (FIX_ONE as int)),
                2621440,
                FIX_ONE as int,
            );
            assert(iabs(((ti - (i as i64) * FIX_ONE) as int) * (FIX_ONE as int)) <= 2621440 * (
            FIX_ONE as int)) by (nonlinear_arith)
                requires
                    -2621440 <= ti - (i as i64) * FIX_ONE <= 2621440,
                    FIX_ONE == 65536,
            ;
        }
        let cosv: i64 = cos_turns(turns);
        proof {
            lemma_sdiv_abs(((td - 131072) as int) * (FIX_ONE as int), 98304);
            lemma_udiv_bound(
                iabs(((td - 131072) as int) * (FIX_ONE as int)),
                98304,
                FIX_ONE as int,
            );
            assert(iabs(((td - 131072) as int) * (FIX_ONE as int)) <= 98304 * (FIX_ONE as int))
                by (nonlinear_arith)
                requires
                    -98304 <= td - 131072 <= 98304,
                    FIX_ONE == 65536,
            ;
        }
        proof {
            assert(((td - 131072) as int) * (FIX_ONE as int) >= 0) by (nonlinear_arith)
                requires
                    td >= 131072,
            ;
            lemma_div_pos_is_pos(((td - 131072) as int) * (FIX_ONE as int), 98304);
        }
        let ftd: i64 = 131072 + fix_div(td - 131072, 98304);
        let base: i64 = 98304 - ftd + 111411;
        proof {
            assert(13107 <= base <= 78643);
            lemma_fmul_bound(base as int, cosv as int, 78643, FIX_ONE as int);
        }
        let curve0: i64 = fix_mul(base, cosv);
        let curve1: i64 = if i == 8 || i == 38 {
            proof {
                lemma_mul_shrinks(curve0 as int, 52429);
            }
            fix_mul(curve0, 52429)
        } else {
            curve0
        };
        let curve2: i64 = if i == 10 || i == 37 {
            proof {
                lemma_mul_shrinks(curve1 as int, 61604);
            }
            fix_mul(curve1, 61604)
        } else {
            curve1
        };
        98304 - curve2
    }
}

/// Multiplying by a factor of at most one cannot grow a value's magnitude.
proof fn lemma_mul_shrinks(x: int, f: int)
    requires
        0 <= f <= FIX_ONE,
    ensures
        iabs(fmul(x, f)) <= iabs(x),
{
    assert(iabs(x * f) <= iabs(x) * (FIX_ONE as int)) by (nonlinear_arith)
        requires
            0 <= f <= FIX_ONE,
            FIX_ONE == 65536,
    ;
    lemma_sdiv_abs(x * f, FIX_ONE as int);
    lemma_udiv_bound(iabs(x * f), FIX_ONE as int, iabs(x));
}

/// One cell under one constriction; exact per `constrict_cell`, and the
/// result stays between the narrowing depth and the cell's old value.
fn constrict_cell_exec(m: i64, index: i64, d: i64, w: i64, idx: usize) -> (nv: i64)
    requires
        0 <= m <= DIAMETER_LIMIT,
        0 <= d < 196608,
        131072 <= index < (MOUTH_CELLS as int) * (FIX_ONE as int),
        w == constr_width(index as int),
        327680 <= w <= 655360,
        idx < MOUTH_CELLS,
    ensures
        nv == constrict_cell(m as int, index as int, d as int, w as int, idx as int),
        0 <= nv <= DIAMETER_LIMIT,
{
    let diff: i64 = (idx as i64) * FIX_ONE - index;
    let ab: i64 = if diff < 0 {
        -diff
    } else {
        diff
    };
    let relpos: i64 = ab - 32768;
    if d >= m {
        m
    } else if relpos <= 0 {
        d
    } else if relpos > w {
        m
    } else {
        let turns: i64 = fix_div(relpos, 2 * w);
        proof {
            lemma_sdiv_abs((relpos as int) * (FIX_ONE as int), 2 * (w as int));
            lemma_udiv_bound(iabs((relpos as int) * (FIX_ONE as int)), 2 * (w as int), 32768);
            assert(iabs((relpos as int) * (FIX_ONE as int)) <= 2 * (w as int) * 32768)
                by (nonlinear_arith)
                requires
                    0 < relpos <= w,
                    FIX_ONE == 65536,
            ;
        }
        let cosv: i64 = cos_turns(turns);
        proof {
            lemma_fmul_bound(32768, (FIX_ONE - cosv) as int, 32768, 2 * (FIX_ONE as int));
            lemma_sdiv_abs(32768 * ((FIX_ONE - cosv) as int), FIX_ONE as int);
            lemma_udiv_bound(iabs(32768 * ((FIX_ONE - cosv) as int)), FIX_ONE as int, FIX_ONE as int);
            assert(iabs(32768 * ((FIX_ONE - cosv) as int)) <= (FIX_ONE as int) * (FIX_ONE as int))
                by (nonlinear_arith)
                requires
                    0 <= FIX_ONE - cosv <= 2 * FIX_ONE,
                    FIX_ONE == 65536,
            ;
            assert(32768 * ((FIX_ONE - cosv) as int) >= 0) by (nonlinear_arith)
                requires
                    FIX_ONE - cosv >= 0,
            ;
            lemma_div_pos_is_pos(32768 * ((FIX_ONE - cosv) as int), FIX_ONE as int);
        }
        let sh: i64 = fix_mul(32768, FIX_ONE - cosv);
        proof {
            lemma_mul_shrinks((m - d) as int, sh as int);
            assert((m - d) as int * (sh as int) >= 0) by (nonlinear_arith)
                requires
                    m - d >= 0,
                    sh >= 0,
            ;
            lemma_div_pos_is_pos((m - d) as int * (sh as int), FIX_ONE as int);
        }
        d + fix_mul(m - d, sh)
    }
}

/// The mouth cell carved out by the tongue at position `(ti, td)`: a cosine
/// bump across the palate span, damped at its edges.
pub open spec fn tongue_shape_cell(ti: int, td: int, i: int) -> int {
    let turns = fdiv(ti - i * (FIX_ONE as int), 2621440);
    let ftd = 131072 + fdiv(td - 131072, 98304);
    let base = 98304 - ftd + 111411;
    let curve0 = fmul(base, spec_cos_turns(turns));
    let curve1 = if i == 8 || i == 38 {
        fmul(curve0, 52429)
    } else {
        curve0
    };
    let curve2 = if i == 10 || i == 37 {
        fmul(curve1, 61604)
    } else {
        curve1
    };
    98304 - curve2
}

/// The mouth profile with only the tongue applied: the rest profile outside
/// the palate span, the tongue bump inside it.
pub open spec fn mouth_after_tongue(ti: int, td: int) -> Seq<i64> {
    Seq::new(
        MOUTH_CELLS as nat,
        |i: int|
            if 10 <= i < 39 {
                tongue_shape_cell(ti, td, i) as i64
            } else {
                baseline_diameter(i) as i64
            },
    )
}

/// The effective narrowing depth of a constriction: anything shallower than
/// 0.3 cm does not narrow at all.
pub open spec fn constr_diam(c1: int) -> int {
    if c1 - 19661 > 0 {
        c1 - 19661
    } else {
        0
    }
}

/// Half-width of a constriction's influence, in cells (fixed point): ten
/// cells in the rear, tapering to five toward the tongue tip.
pub open spec fn constr_width(index: int) -> int {
    if index < 1638400 {
        655360
    } else if index >= 2097152 {
        327680
    } else {
        655360 - crate::fixed::sdiv(5 * (index - 1638400), 7)
    }
}

/// Whether a constriction takes part in shaping: inside the interior of the
/// tract and deep enough to matter.
pub open spec fn constriction_active(c: (i64, i64)) -> bool {
    131072 <= c.0 && (c.0 as int) < (MOUTH_CELLS as int) * (FIX_ONE as int) && constr_diam(
        c.1 as int,
    ) < 196608
}

/// One mouth cell after a constriction of depth `d`, half-width `w` at
/// `index` has acted on it: pinched fully at the centre, cosine-tapered at
/// the flanks, untouched outside.
pub open spec fn constrict_cell(m: int, index: int, d: int, w: int, idx: int) -> int {
    let relpos = iabs(idx * (FIX_ONE as int) - index) - 32768;
    if d >= m {
        m
    } else if relpos <= 0 {
        d
    } else if relpos > w {
        m
    } else {
        d + fmul(m - d, fmul(32768, (FIX_ONE as int) - spec_cos_turns(fdiv(relpos, 2 * w))))
    }
}

/// The whole mouth after one constriction has acted.
pub open spec fn apply_constriction(m: Seq<i64>, c: (i64, i64)) -> Seq<i64> {
    if constriction_active(c) {
        Seq::new(
            m.len(),
            |idx: int|
                constrict_cell(
                    m[idx] as int,
                    c.0 as int,
                    constr_diam(c.1 as int),
                    constr_width(c.0 as int),
                    idx,
                ) as i64,
        )
    } else {
        m
    }
}

/// The whole mouth after every constriction has acted, in order.
pub open spec fn apply_constrictions(m: Seq<i64>, cs: Seq<(i64, i64)>) -> Seq<i64>
    decreases cs.len(),
{
    if cs.len() == 0 {
        m
    } else {
        apply_constriction(apply_constrictions(m, cs.drop_last()), cs.last())
    }
}

/// Dilation rate factor per mouth cell: slow behind the nose branch,
/// ramping up to full speed at the tongue tip.
pub open spec fn slow_return(i: int) -> int {
    if i < 17 {
        39322
    } else if i >= 32 {
        FIX_ONE as int
    } else {
        39322 + fmul(26214, ((i - 17) * (FIX_ONE as int)) / 15)
    }
}

/// The reflection at a cell boundary with areas `a` then `b`: the closed-end
/// value when the far side is shut, else the area-contrast ratio.
pub open spec fn refl_cell(a: int, b: int) -> int {
    if b == 0 {
        CLOSED_REFLECTION as int
    } else {
        fdiv(a - b, a + b)
    }
}

/// The cross-section area of a cell of diameter `d`.
pub open spec fn area_of(d: int) -> int {
    fmul(d, d)
}

/// One of the three branch-junction coefficients: twice the share of this
/// area in the total, less one.
pub open spec fn junction_coeff(a: int, total: int) -> int {
    fdiv(2 * a, total) - FIX_ONE
}

/// The mouth and nose diameters, cell by cell.
pub struct Diameter {
    pub nose_start: usize,
    pub tip_start: usize,
    pub mouth: Vec<i64>,
    pub nose: Vec<i64>,
}

impl Diameter {
    pub open spec fn wf(self) -> bool {
        &&& self.nose_start == 17
        &&& self.tip_start == 32
        &&& self.mouth@.len() == MOUTH_CELLS
        &&& self.nose@.len() == NOSE_CELLS
        &&& forall|i: int|
            0 <= i < MOUTH_CELLS ==> 0 <= #[trigger] self.mouth@[i] <= DIAMETER_LIMIT
        &&& VELUM_MIN <= self.nose@[0] <= VELUM_MAX
        &&& forall|i: int|
            1 <= i < NOSE_CELLS ==> 26214 <= #[trigger] self.nose@[i] <= DIAMETER_LIMIT
    }

    /// A zeroed mouth and the resting nose profile, with the velum shut.
    pub fn new(source: &ShapeSource) -> (r: Diameter)
        requires
            source.wf(),
        ensures
            r.wf(),
            r.mouth@ == Seq::new(MOUTH_CELLS as nat, |i: int| 0i64),
            r.nose@ == Seq::new(NOSE_CELLS as nat, |i: int| if i == 0 {
                VELUM_MIN
            } else {
                nose_baseline(i) as i64
            }),
    {
        let mut nose: Vec<i64> = Vec::new();
        let mut i: usize = 0;
        while i < NOSE_CELLS
            invariant
                i <= NOSE_CELLS,
                nose@.len() == i,
                forall|j: int|
                    0 <= j < i ==> #[trigger] nose@[j] == (if j == 0 {
                        VELUM_MIN
                    } else {
                        nose_baseline(j) as i64
                    }),
                forall|j: int| 1 <= j < i ==> 26214 <= #[trigger] nose@[j] <= DIAMETER_LIMIT,
            decreases NOSE_CELLS - i,
        {
            if i == 0 {
                nose.push(VELUM_MIN);
            } else {
                let d: i64 = div_pos((i as i64) * FIX_ONE, 14);
                let v: i64 = if d < FIX_ONE {
                    proof {
                        lemma_fmul_bound(104858, d as int, 104858, FIX_ONE as int);
                        lemma_sdiv_abs(104858 * (d as int), FIX_ONE as int);
                        lemma_div_pos_is_pos(104858 * (d as int), FIX_ONE as int);
                        assert(104858 * (d as int) >= 0) by (nonlinear_arith)
                            requires
                                d >= 0,
                        ;
                    }
                    26214 + fix_mul(104858, d)
                } else {
                    proof {
                        assert(d <= 2 * FIX_ONE) by {
                            lemma_udiv_bound((i as int) * (FIX_ONE as int), 14, 2 * (
                            FIX_ONE as int));
                            assert((i as int) * (FIX_ONE as int) <= 14 * (2 * (FIX_ONE as int)))
                                by (nonlinear_arith)
                                requires
                                    i < 28,
                            ;
                        }
                        lemma_fmul_bound(
                            98304,
                            2 * (FIX_ONE as int) - (d as int),
                            98304,
                            FIX_ONE as int,
                        );
                        lemma_sdiv_abs(98304 * (2 * (FIX_ONE as int) - (d as int)), FIX_ONE as int);
                        lemma_div_pos_is_pos(
                            98304 * (2 * (FIX_ONE as int) - (d as int)),
                            FIX_ONE as int,
                        );
                        assert(98304 * (2 * (FIX_ONE as int) - (d as int)) >= 0)
                            by (nonlinear_arith)
                            requires
                                d <= 2 * FIX_ONE,
                        ;
                    }
                    32768 + fix_mul(98304, 2 * FIX_ONE - d)
                };
                let v: i64 = if v > 124518 {
                    124518
                } else {
                    v
                };
                nose.push(v);
            }
            i = i + 1;
        }
        let mut mouth: Vec<i64> = Vec::new();
        let mut i: usize = 0;
        while i < MOUTH_CELLS
            invariant
                i <= MOUTH_CELLS,
                mouth@.len() == i,
                forall|j: int| 0 <= j < i ==> #[trigger] mouth@[j] == 0i64,
            decreases MOUTH_CELLS - i,
        {
            mouth.push(0);
            i = i + 1;
        }
        proof {
            assert(mouth@ =~= Seq::new(MOUTH_CELLS as nat, |i: int| 0i64));
            assert(nose@ =~= Seq::new(NOSE_CELLS as nat, |i: int| if i == 0 {
                VELUM_MIN
            } else {
                nose_baseline(i) as i64
            }));
        }
        Diameter { nose_start: 17, tip_start: 32, mouth, nose }
    }

    /// Move each cell toward its target with asymmetric rates: constriction
    /// is fast, dilation slower behind the tip, and the velum slower still.
    pub fn reshape(&mut self, target_diameter: &Diameter, amount: i64)
        requires
            old(self).wf(),
            target_diameter.wf(),
            0 <= amount <= 16 * FIX_ONE,
        ensures
            final(self).wf(),
            final(self).nose_start == old(self).nose_start,
            final(self).tip_start == old(self).tip_start,
            final(self).mouth@ == Seq::new(
                MOUTH_CELLS as nat,
                |i: int|
                    spec_move_towards(
                        old(self).mouth@[i] as int,
                        target_diameter.mouth@[i] as int,
                        fmul(slow_return(i), amount as int),
                        2 * amount,
                    ) as i64,
            ),
            final(self).nose@[0] == spec_move_towards(
                old(self).nose@[0] as int,
                target_diameter.nose@[0] as int,
                fmul(16384, amount as int),
                fmul(6554, amount as int),
            ),
            forall|i: int| 1 <= i < NOSE_CELLS ==> final(self).nose@[i] == old(self).nose@[i],
    {
        let ghost m0: Seq<i64> = self.mouth@;
        let mut i: usize = 0;
        while i < MOUTH_CELLS
            invariant
                i <= MOUTH_CELLS,
                self.mouth@.len() == MOUTH_CELLS,
                self.nose@ == old(self).nose@,
                self.nose_start == old(self).nose_start,
                self.tip_start == old(self).tip_start,
                target_diameter.wf(),
                old(self).wf(),
                0 <= amount <= 16 * FIX_ONE,
                forall|j: int| i <= j < MOUTH_CELLS ==> self.mouth@[j] == m0[j],
                m0 == old(self).mouth@,
                forall|j: int|
                    0 <= j < i ==> #[trigger] self.mouth@[j] == spec_move_towards(
                        m0[j] as int,
                        target_diameter.mouth@[j] as int,
                        fmul(slow_return(j), amount as int),
                        2 * amount,
                    ) as i64,
                forall|j: int| 0 <= j < i ==> 0 <= #[trigger] self.mouth@[j] <= DIAMETER_LIMIT,
            decreases MOUTH_CELLS - i,
        {
            let slow: i64 = if i < 17 {
                39322
            } else if i >= 32 {
                FIX_ONE
            } else {
                let ramp: i64 = div_pos(((i - 17) as i64) * FIX_ONE, 15);
                proof {
                    lemma_fmul_bound(26214, ramp as int, 26214, FIX_ONE as int);
                    lemma_sdiv_abs(26214 * (ramp as int), FIX_ONE as int);
                    lemma_udiv_bound(iabs(26214 * (ramp as int)), FIX_ONE as int, 26214);
                    assert(iabs(26214 * (ramp as int)) <= (FIX_ONE as int) * 26214)
                        by (nonlinear_arith)
                        requires
                            0 <= ramp <= FIX_ONE,
                    ;
                    assert(ramp <= FIX_ONE) by {
                        lemma_udiv_bound(((i - 17) as int) * (FIX_ONE as int), 15, FIX_ONE as int);
                        assert(((i - 17) as int) * (FIX_ONE as int) <= 15 * (FIX_ONE as int))
                            by (nonlinear_arith)
                            requires
                                17 <= i < 32,
                        ;
                    }
                }
                39322 + fix_mul(26214, ramp)
            };
            proof {
                lemma_fmul_bound(slow as int, amount as int, FIX_ONE as int, 16 * (FIX_ONE as int));
                lemma_sdiv_abs((slow as int) * (amount as int), FIX_ONE as int);
                lemma_div_pos_is_pos((slow as int) * (amount as int), FIX_ONE as int);
                assert((slow as int) * (amount as int) >= 0) by (nonlinear_arith)
                    requires
                        slow >= 0,
                        amount >= 0,
                ;
            }
            let up: i64 = fix_mul(slow, amount);
            let m: i64 = self.mouth[i];
            let t: i64 = target_diameter.mouth[i];
            proof {
                assert(m == m0[i as int]);
                assert(0 <= old(self).mouth@[i as int] <= DIAMETER_LIMIT);
                assert(0 <= target_diameter.mouth@[i as int] <= DIAMETER_LIMIT);
            }
            let nv: i64 = move_towards(m, t, up, 2 * amount);
            self.mouth.set(i, nv);
            i = i + 1;
        }
        let n0: i64 = self.nose[0];
        let t0: i64 = target_diameter.nose[0];
        proof {
            lemma_fmul_bound(16384, amount as int, 16384, 16 * (FIX_ONE as int));
            lemma_fmul_bound(6554, amount as int, 6554, 16 * (FIX_ONE as int));
            lemma_sdiv_abs(16384 * (amount as int), FIX_ONE as int);
            lemma_sdiv_abs(6554 * (amount as int), FIX_ONE as int);
            lemma_div_pos_is_pos(16384 * (amount as int), FIX_ONE as int);
            lemma_div_pos_is_pos(6554 * (amount as int), FIX_ONE as int);
            assert(16384 * (amount as int) >= 0 && 6554 * (amount as int) >= 0)
                by (nonlinear_arith)
                requires
                    amount >= 0,
            ;
        }
        let vup: i64 = fix_mul(16384, amount);
        let vdown: i64 = fix_mul(6554, amount);
        let nv: i64 = move_towards(n0, t0, vup, vdown);
        self.nose.set(0, nv);
        proof {
            assert(self.mouth@ =~= Seq::new(
                MOUTH_CELLS as nat,
                |i: int|
                    spec_move_towards(
                        m0[i] as int,
                        target_diameter.mouth@[i] as int,
                        fmul(slow_return(i), amount as int),
                        2 * amount,
                    ) as i64,
            ));
        }
    }

    /// Recompute every reflection coefficient from the current areas; each
    /// lies in `[-1, 1]`.
    pub fn compute_reflections(&self, reflections: &mut Reflections)
        requires
            self.wf(),
        ensures
            final(reflections).wf(),
            final(reflections).mouth@ == Seq::new(
                (MOUTH_CELLS - 1) as nat,
                |i: int|
                    refl_cell(
                        area_of(self.mouth@[i] as int),
                        area_of(self.mouth@[i + 1] as int),
                    ) as i64,
            ),
            final(reflections).nose@ == Seq::new(
                (NOSE_CELLS - 1) as nat,
                |i: int|
                    refl_cell(
                        area_of(self.nose@[i] as int),
                        area_of(self.nose@[i + 1] as int),
                    ) as i64,
            ),
            final(reflections).junction_left == junction_coeff(
                area_of(self.mouth@[17] as int),
                junction_total(self),
            ),
            final(reflections).junction_right == junction_coeff(
                area_of(self.mouth@[18] as int),
                junction_total(self),
            ),
            final(reflections).junction_nose == junction_coeff(
                area_of(self.nose@[0] as int),
                junction_total(self),
            ),
    {
        let mut mouth: Vec<i64> = Vec::new();
        let mut i: usize = 0;
        while i < MOUTH_CELLS - 1
            invariant
                i <= MOUTH_CELLS - 1,
                self.wf(),
                mouth@.len() == i,
                forall|j: int|
                    0 <= j < i ==> #[trigger] mouth@[j] == refl_cell(
                        area_of(self.mouth@[j] as int),
                        area_of(self.mouth@[j + 1] as int),
                    ) as i64,
                forall|j: int| 0 <= j < i ==> -FIX_ONE <= #[trigger] mouth@[j] <= FIX_ONE,
            decreases MOUTH_CELLS - 1 - i,
        {
            let a: i64 = area_exec(self.mouth[i]);
            let b: i64 = area_exec(self.mouth[i + 1]);
            let r: i64 = refl_exec(a, b);
            mouth.push(r);
            i = i + 1;
        }
        let mut nose: Vec<i64> = Vec::new();
        let mut i: usize = 0;
        while i < NOSE_CELLS - 1
            invariant
                i <= NOSE_CELLS - 1,
                self.wf(),
                nose@.len() == i,
                forall|j: int|
                    0 <= j < i ==> #[trigger] nose@[j] == refl_cell(
                        area_of(self.nose@[j] as int),
                        area_of(self.nose@[j + 1] as int),
                    ) as i64,
                forall|j: int| 0 <= j < i ==> -FIX_ONE <= #[trigger] nose@[j] <= FIX_ONE,
            decreases NOSE_CELLS - 1 - i,
        {
            let a: i64 = area_exec(self.nose[i]);
            let b: i64 = area_exec(self.nose[i + 1]);
            let r: i64 = refl_exec(a, b);
            nose.push(r);
            i = i + 1;
        }
        let al: i64 = area_exec(self.mouth[17]);
        let ar: i64 = area_exec(self.mouth[18]);
        let an: i64 = area_exec(self.nose[0]);
        proof {
            lemma_velum_area_positive(self.nose@[0] as int);
        }
        let total: i64 = al + ar + an;
        let jl: i64 = junction_exec(al, total);
        let jr: i64 = junction_exec(ar, total);
        let jn: i64 = junction_exec(an, total);
        proof {
            assert(mouth@ =~= Seq::new(
                (MOUTH_CELLS - 1) as nat,
                |i: int|
                    refl_cell(
                        area_of(self.mouth@[i] as int),
                        area_of(self.mouth@[i + 1] as int),
                    ) as i64,
            ));
            assert(nose@ =~= Seq::new(
                (NOSE_CELLS - 1) as nat,
                |i: int|
                    refl_cell(
                        area_of(self.nose@[i] as int),
                        area_of(self.nose@[i + 1] as int),
                    ) as i64,
            ));
        }
        reflections.mouth = mouth;
        reflections.nose = nose;
        reflections.junction_left = jl;
        reflections.junction_right = jr;
        reflections.junction_nose = jn;
    }
}

/// The three branch-junction coefficients always sum to minus one, up to
/// the rounding of the three divisions: with exact arithmetic each
/// coefficient is twice an area share less one, and the three shares sum to
/// one, so the coefficients sum to two less three. Each also lies in
/// `[-1, 1]` on its own (see `junction_exec`).
pub proof fn lemma_junction_sum(al: int, ar: int, an: int)
    requires
        al >= 0,
        ar >= 0,
        an >= 1,
    ensures
        ({
            let s = al + ar + an;
            -(FIX_ONE as int) - 2 <= junction_coeff(al, s) + junction_coeff(ar, s)
                + junction_coeff(an, s) <= -(FIX_ONE as int)
        }),
{
    let big: int = FIX_ONE as int;
    let s: int = al + ar + an;
    let ql: int = (2 * al * big) / s;
    let qr: int = (2 * ar * big) / s;
    let qn: int = (2 * an * big) / s;
    assert(junction_coeff(al, s) == ql - big) by {
        lemma_sdiv_abs(2 * al * big, s);
        lemma_div_pos_is_pos(2 * al * big, s);
    }
    assert(junction_coeff(ar, s) == qr - big) by {
        lemma_sdiv_abs(2 * ar * big, s);
        lemma_div_pos_is_pos(2 * ar * big, s);
    }
    assert(junction_coeff(an, s) == qn - big) by {
        lemma_sdiv_abs(2 * an * big, s);
        lemma_div_pos_is_pos(2 * an * big, s);
    }
    lemma_fundamental_div_mod(2 * al * big, s);
    lemma_fundamental_div_mod(2 * ar * big, s);
    lemma_fundamental_div_mod(2 * an * big, s);
    lemma_mod_bound(2 * al * big, s);
    lemma_mod_bound(2 * ar * big, s);
    lemma_mod_bound(2 * an * big, s);
    let rl: int = (2 * al * big) % s;
    let rr: int = (2 * ar * big) % s;
    let rn: int = (2 * an * big) % s;
    let q: int = ql + qr + qn;
    assert(2 * al * big + 2 * ar * big + 2 * an * big == 2 * s * big) by (nonlinear_arith)
        requires
            s == al + ar + an,
    ;
    assert(s * q == 2 * s * big - (rl + rr + rn)) by (nonlinear_arith)
        requires
            2 * al * big == s * ql + rl,
            2 * ar * big == s * qr + rr,
            2 * an * big == s * qn + rn,
            2 * al * big + 2 * ar * big + 2 * an * big == 2 * s * big,
            q == ql + qr + qn,
    ;
    assert(q > 2 * big - 3) by (nonlinear_arith)
        requires
            s >= 1,
            s * q == 2 * s * big - (rl + rr + rn),
            rl < s,
            rr < s,
            rn < s,
    ;
    assert(q <= 2 * big) by (nonlinear_arith)
        requires
            s >= 1,
            s * q == 2 * s * big - (rl + rr + rn),
            rl >= 0,
            rr >= 0,
            rn >= 0,
    ;
}

/// The total area at the branch junction: the two mouth cells beside the
/// nose attachment and the velum cell.
pub open spec fn junction_total(d: &Diameter) -> int {
    area_of(d.mouth@[17] as int) + area_of(d.mouth@[18] as int) + area_of(d.nose@[0] as int)
}

/// The velum never quite shuts, so its area is at least one unit.
proof fn lemma_velum_area_positive(d: int)
    requires
        VELUM_MIN <= d <= VELUM_MAX,
    ensures
        1 <= area_of(d) <= 10486,
{
    assert(655 * 655 <= d * d <= 26214 * 26214) by (nonlinear_arith)
        requires
            655 <= d <= 26214,
    ;
    lemma_sdiv_abs(d * d, FIX_ONE as int);
    lemma_udiv_bound(d * d, FIX_ONE as int, 10486);
    lemma_div_is_ordered(429025, d * d, FIX_ONE as int);
}

/// A cell's area, in fixed point; at most sixteen square units.
fn area_exec(d: i64) -> (a: i64)
    requires
        0 <= d <= DIAMETER_LIMIT,
    ensures
        a == area_of(d as int),
        0 <= a <= 0x100000,
{
    proof {
        lemma_fmul_bound(d as int, d as int, DIAMETER_LIMIT as int, DIAMETER_LIMIT as int);
        lemma_sdiv_abs((d as int) * (d as int), FIX_ONE as int);
        lemma_div_pos_is_pos((d as int) * (d as int), FIX_ONE as int);
        assert((d as int) * (d as int) >= 0) by (nonlinear_arith)
            requires
                d >= 0,
        ;
    }
    fix_mul(d, d)
}

/// The reflection between two areas; exact per `refl_cell` and inside
/// `[-1, 1]`.
fn refl_exec(a: i64, b: i64) -> (r: i64)
    requires
        0 <= a <= 0x100000,
        0 <= b <= 0x100000,
    ensures
        r == refl_cell(a as int, b as int),
        -FIX_ONE <= r <= FIX_ONE,
{
    if b == 0 {
        CLOSED_REFLECTION
    } else {
        proof {
            assert(iabs(((a - b) as int) * (FIX_ONE as int)) <= ((a + b) as int) * (
            FIX_ONE as int)) by (nonlinear_arith)
                requires
                    0 <= a,
                    0 <= b,
            ;
            lemma_sdiv_bound(((a - b) as int) * (FIX_ONE as int), (a + b) as int, FIX_ONE as int);
        }
        fix_div(a - b, a + b)
    }
}

/// One branch-junction coefficient; exact per `junction_coeff` and inside
/// `[-1, 1]`.
fn junction_exec(a: i64, total: i64) -> (r: i64)
    requires
        0 <= a <= total,
        1 <= total <= 0x400000,
    ensures
        r == junction_coeff(a as int, total as int),
        -FIX_ONE <= r <= FIX_ONE,
{
    proof {
        assert((2 * a as int) * (FIX_ONE as int) <= (total as int) * (2 * (FIX_ONE as int)))
            by (nonlinear_arith)
            requires
                0 <= a <= total,
        ;
        lemma_sdiv_abs((2 * a as int) * (FIX_ONE as int), total as int);
        lemma_udiv_bound((2 * a as int) * (FIX_ONE as int), total as int, 2 * (FIX_ONE as int));
        lemma_div_pos_is_pos((2 * a as int) * (FIX_ONE as int), total as int);
        assert((2 * a as int) * (FIX_ONE as int) >= 0) by (nonlinear_arith)
            requires
                a >= 0,
        ;
    }
    fix_div(2 * a, total) - FIX_ONE
}

/// Reflection coefficients for every cell boundary of mouth and nose, and
/// the three-way branch junction.
pub struct Reflections {
    pub mouth: Vec<i64>,
    pub nose: Vec<i64>,
    pub junction_left: i64,
    pub junction_right: i64,
    pub junction_nose: i64,
}

impl Reflections {
    pub open spec fn wf(self) -> bool {
        &&& self.mouth@.len() == MOUTH_CELLS - 1
        &&& self.nose@.len() == NOSE_CELLS - 1
        &&& forall|i: int|
            0 <= i < self.mouth@.len() ==> -FIX_ONE <= #[trigger] self.mouth@[i] <= FIX_ONE
        &&& forall|i: int|
            0 <= i < self.nose@.len() ==> -FIX_ONE <= #[trigger] self.nose@[i] <= FIX_ONE
        &&& -FIX_ONE <= self.junction_left <= FIX_ONE
        &&& -FIX_ONE <= self.junction_right <= FIX_ONE
        &&& -FIX_ONE <= self.junction_nose <= FIX_ONE
    }

    /// Zeroed coefficients for the given mouth and nose lengths.
    pub fn new(length: usize, nose_length: usize) -> (r: Reflections)
        requires
            length == MOUTH_CELLS,
            nose_length == NOSE_CELLS,
        ensures
            r.wf(),
            r.mouth@ == Seq::new((length - 1) as nat, |i: int| 0i64),
            r.nose@ == Seq::new((nose_length - 1) as nat, |i: int| 0i64),
            r.junction_left == 0,
            r.junction_right == 0,
            r.junction_nose == 0,
    {
        let mut mouth: Vec<i64> = Vec::new();
        let mut i: usize = 0;
        while i < length - 1
            invariant
                i <= length - 1,
                mouth@.len() == i,
                forall|j: int| 0 <= j < i ==> mouth@[j] == 0i64,
            decreases length - 1 - i,
        {
            mouth.push(0);
            i = i + 1;
        }
        let mut nose: Vec<i64> = Vec::new();
        let mut i: usize = 0;
        while i < nose_length - 1
            invariant
                i <= nose_length - 1,
                nose@.len() == i,
                forall|j: int| 0 <= j < i ==> nose@[j] == 0i64,
            decreases nose_length - 1 - i,
        {
            nose.push(0);
            i = i + 1;
        }
        proof {
            assert(mouth@ =~= Seq::new((length - 1) as nat, |i: int| 0i64));
            assert(nose@ =~= Seq::new((nose_length - 1) as nat, |i: int| 0i64));
        }
        Reflections { mouth, nose, junction_left: 0, junction_right: 0, junction_nose: 0 }
    }
}

} // verus!
