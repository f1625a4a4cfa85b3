//! Seeded noise: a linear congruential generator feeding a second-order
//! band-pass filter (transposed direct-form II). Filter states and outputs
//! are clamped to a wide safety window, so every value stays bounded.

use vstd::prelude::*;
use vstd::arithmetic::div_mod::*;
use crate::fixed::{
    clamp_fix, cos_turns, fclamp, fdiv, fix_div, fix_mul, fmul, lemma_udiv_bound, sin_turns,
    spec_cos_turns, spec_sin_turns, FIX_ONE,
};

verus! {

/// Safety window for filter state values: eight times full scale.
pub const STATE_LIMIT: i64 = 524288;

/// Safety window for filter coefficients: three times full scale.
pub const COEFF_LIMIT: i64 = 196608;

/// One step of the generator: a wrapping multiply, then a reduction.
pub open spec fn lcg_next(s: int) -> int {
    ((s * 48271) % 0x100000000) % 0x7FFFFFFF
}

/// The fixed-point value a generator state stands for, in `[0, FIX_ONE)`.
pub open spec fn lcg_out(s: int) -> int {
    (s * 131072) / 0xFFFFFFFF
}

/// Advance the generator and return a fixed-point value in `[0, FIX_ONE)`.
pub fn rand_fixed(seed: &mut u32) -> (r: i64)
    ensures
        *final(seed) == lcg_next(*old(seed) as int),
        r == lcg_out(*final(seed) as int),
        0 <= r < FIX_ONE,
{
    let next: u32 = seed.wrapping_mul(48271) % 0x7FFFFFFF;
    *seed = next;
    let num: u64 = (next as u64) * 131072;
    let r: u64 = num / 0xFFFFFFFF;
    proof {
        assert((next as int) * 131072 <= 0x7FFFFFFE * 131072) by (nonlinear_arith)
            requires
                next <= 0x7FFFFFFE,
        ;
        lemma_div_pos_is_pos(num as int, 0xFFFFFFFF);
        lemma_fundamental_div_mod(num as int, 0xFFFFFFFF);
        lemma_mod_bound(num as int, 0xFFFFFFFF);
        assert(0xFFFFFFFF * (r as int) <= num as int);
    }
    r as i64
}

/// A band-pass filtered white-noise source.
pub struct Noise {
    pub rand: u32,
    pub b0: i64,
    pub b2: i64,
    pub a1: i64,
    pub a2: i64,
    pub s1: i64,
    pub s2: i64,
}

/// Band-pass coefficient set for a centre frequency given as a fraction of
/// the sample rate (in turns per sample), with Q fixed at one half, derived
/// from the cosine/sine approximations and clamped into the safety window.
pub open spec fn bp_b0(turns: int) -> int {
    fclamp(
        fdiv(spec_sin_turns(turns), bp_a0(turns)),
        -COEFF_LIMIT as int,
        COEFF_LIMIT as int,
    )
}

pub open spec fn bp_a0(turns: int) -> int {
    let alpha = spec_sin_turns(turns);
    if (FIX_ONE as int) + alpha < 1 {
        1
    } else {
        (FIX_ONE as int) + alpha
    }
}

pub open spec fn bp_a1(turns: int) -> int {
    fclamp(
        fdiv(-2 * spec_cos_turns(turns), bp_a0(turns)),
        -COEFF_LIMIT as int,
        COEFF_LIMIT as int,
    )
}

pub open spec fn bp_a2(turns: int) -> int {
    fclamp(
        fdiv((FIX_ONE as int) - spec_sin_turns(turns), bp_a0(turns)),
        -COEFF_LIMIT as int,
        COEFF_LIMIT as int,
    )
}

/// One filter step: the output, from the input and the first state.
pub open spec fn bp_y(b0: int, x: int, s1: int) -> int {
    fclamp(fmul(b0, x) + s1, -STATE_LIMIT as int, STATE_LIMIT as int)
}

/// One filter step: the next first state.
pub open spec fn bp_s1(a1: int, y: int, s2: int) -> int {
    fclamp(s2 - fmul(a1, y), -STATE_LIMIT as int, STATE_LIMIT as int)
}

/// One filter step: the next second state.
pub open spec fn bp_s2(b2: int, x: int, a2: int, y: int) -> int {
    fclamp(fmul(b2, x) - fmul(a2, y), -STATE_LIMIT as int, STATE_LIMIT as int)
}

/// The whole source after one draw-and-filter step, with the produced
/// sample.
pub open spec fn spec_noise_step(n: Noise) -> (Noise, int) {
    let next = lcg_next(n.rand as int);
    let x = 2 * lcg_out(next) - FIX_ONE;
    let y = bp_y(n.b0 as int, x, n.s1 as int);
    (
        Noise {
            rand: next as u32,
            s1: bp_s1(n.a1 as int, y, n.s2 as int) as i64,
            s2: bp_s2(n.b2 as int, x, n.a2 as int, y) as i64,
            ..n
        },
        y,
    )
}

impl Noise {
    /// The filter's coefficients and states are inside their windows.
    pub open spec fn wf(self) -> bool {
        &&& -COEFF_LIMIT <= self.b0 <= COEFF_LIMIT
        &&& -COEFF_LIMIT <= self.b2 <= COEFF_LIMIT
        &&& -COEFF_LIMIT <= self.a1 <= COEFF_LIMIT
        &&& -COEFF_LIMIT <= self.a2 <= COEFF_LIMIT
        &&& -STATE_LIMIT <= self.s1 <= STATE_LIMIT
        &&& -STATE_LIMIT <= self.s2 <= STATE_LIMIT
    }

    /// A fresh source seeded with `seed`, band-passed at `frequency` for the
    /// given `sample_rate` (both fixed point, in hertz).
    pub fn new(seed: u32, sample_rate: i64, frequency: i64) -> (r: Noise)
        requires
            seed != 0,
            FIX_ONE <= frequency,
            2 * frequency <= sample_rate <= 0x400000000,
        ensures
            r.wf(),
            r.rand == seed,
            r.s1 == 0,
            r.s2 == 0,
            r.b0 == bp_b0(fdiv(frequency as int, sample_rate as int)),
            r.b2 == -bp_b0(fdiv(frequency as int, sample_rate as int)),
            r.a1 == bp_a1(fdiv(frequency as int, sample_rate as int)),
            r.a2 == bp_a2(fdiv(frequency as int, sample_rate as int)),
    {
        let turns: i64 = fix_div(frequency, sample_rate);
        proof {
            crate::fixed::lemma_sdiv_abs((frequency as int) * (FIX_ONE as int), sample_rate as int);
            assert((frequency as int) * (FIX_ONE as int) <= (sample_rate as int) * (
            FIX_ONE as int)) by (nonlinear_arith)
                requires
                    0 <= frequency <= sample_rate,
            ;
            lemma_udiv_bound(
                (frequency as int) * (FIX_ONE as int),
                sample_rate as int,
                FIX_ONE as int,
            );
        }
        let alpha: i64 = sin_turns(turns);
        let cosv: i64 = cos_turns(turns);
        let a0: i64 = if FIX_ONE + alpha < 1 {
            1
        } else {
            FIX_ONE + alpha
        };
        let b0: i64 = clamp_fix(fix_div(alpha, a0), -COEFF_LIMIT, COEFF_LIMIT);
        let c2: i64 = -(cosv + cosv);
        let a1: i64 = clamp_fix(fix_div(c2, a0), -COEFF_LIMIT, COEFF_LIMIT);
        let a2: i64 = clamp_fix(fix_div(FIX_ONE - alpha, a0), -COEFF_LIMIT, COEFF_LIMIT);
        Noise { rand: seed, b0, b2: -b0, a1, a2, s1: 0, s2: 0 }
    }

    /// Draw one white sample, filter it, and return the band-passed value;
    /// exact per `spec_noise_step`.
    pub fn process(&mut self) -> (y: i64)
        requires
            old(self).wf(),
        ensures
            final(self).wf(),
            *final(self) == spec_noise_step(*old(self)).0,
            y == spec_noise_step(*old(self)).1,
            final(self).b0 == old(self).b0,
            final(self).b2 == old(self).b2,
            final(self).a1 == old(self).a1,
            final(self).a2 == old(self).a2,
            final(self).rand == lcg_next(old(self).rand as int),
            y == bp_y(
                old(self).b0 as int,
                2 * lcg_out(final(self).rand as int) - FIX_ONE,
                old(self).s1 as int,
            ),
            final(self).s1 == bp_s1(old(self).a1 as int, y as int, old(self).s2 as int),
            final(self).s2 == bp_s2(
                old(self).b2 as int,
                2 * lcg_out(final(self).rand as int) - FIX_ONE,
                old(self).a2 as int,
                y as int,
            ),
            -STATE_LIMIT <= y <= STATE_LIMIT,
    {
        let r: i64 = rand_fixed(&mut self.rand);
        let x: i64 = 2 * r - FIX_ONE;
        proof {
            crate::fixed::lemma_fmul_bound(
                self.b0 as int,
                x as int,
                COEFF_LIMIT as int,
                FIX_ONE as int,
            );
        }
        let y: i64 = clamp_fix(fix_mul(self.b0, x) + self.s1, -STATE_LIMIT, STATE_LIMIT);
        proof {
            crate::fixed::lemma_fmul_bound(
                self.a1 as int,
                y as int,
                COEFF_LIMIT as int,
                STATE_LIMIT as int,
            );
            crate::fixed::lemma_fmul_bound(
                self.b2 as int,
                x as int,
                COEFF_LIMIT as int,
                FIX_ONE as int,
            );
            crate::fixed::lemma_fmul_bound(
                self.a2 as int,
                y as int,
                COEFF_LIMIT as int,
                STATE_LIMIT as int,
            );
        }
        let ns1: i64 = clamp_fix(self.s2 - fix_mul(self.a1, y), -STATE_LIMIT, STATE_LIMIT);
        let ns2: i64 = clamp_fix(
            fix_mul(self.b2, x) - fix_mul(self.a2, y),
            -STATE_LIMIT,
            STATE_LIMIT,
        );
        self.s1 = ns1;
        self.s2 = ns2;
        proof {
            assert(*self == spec_noise_step(*old(self)).0);
        }
        y
    }
}

} // verus!
