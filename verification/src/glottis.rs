//! The glottal source: a phase accumulator over the pitch period, a voiced
//! sample read from a sampled waveform-integral table, and aspiration noise
//! shaped by the phase.
//!
//! The waveform-integral table holds the integral of the glottal flow
//! waveform sampled over one period; the voiced output is its discrete
//! derivative, so any parametric waveform can be supplied from outside
//! without this module depending on how it was computed.

use vstd::prelude::*;
use vstd::arithmetic::div_mod::{lemma_fundamental_div_mod, lemma_div_pos_is_pos, lemma_mod_bound};
use crate::fixed::{
    clamp_fix, div_pos, fclamp, fdiv, fix_div, fix_mul, flerp, fmul, lemma_fmul_bound,
    lemma_sdiv_abs, lemma_udiv_bound, lerp_fix, sin_turns, spec_sin_turns, sqrt_fix, FIX_BOUND,
    FIX_ONE,
};
use crate::noise::{spec_noise_step, Noise};
use crate::wiggle::{spec_wiggle_step, Wiggle};

verus! {

/// Number of entries in the waveform-integral table.
pub const TABLE_SIZE: usize = 256;

/// The table value at a phase in `[0, FIX_ONE)`: linear interpolation
/// between the two neighbouring entries (the table wraps at the period
/// boundary back to its first entry).
pub open spec fn table_at(t: Seq<i64>, phase: int) -> int {
    let pos = phase * (TABLE_SIZE as int);
    let cell0 = pos / (FIX_ONE as int);
    let cell = if cell0 < TABLE_SIZE {
        cell0
    } else {
        TABLE_SIZE as int - 1
    };
    let frac = pos % (FIX_ONE as int);
    let a = t[cell];
    let b = if cell + 1 < TABLE_SIZE {
        t[cell + 1]
    } else {
        t[0]
    };
    flerp(a as int, b as int, frac)
}

/// The voiced sample: the discrete derivative of the waveform integral at
/// the advanced phase (difference over the phase step), clamped to twice
/// full scale.
pub open spec fn spec_voiced(table: Seq<i64>, phase: int, last_integral: int, d: int) -> int {
    fclamp(
        fdiv(table_at(table, phase) - last_integral, d),
        -2 * FIX_ONE as int,
        2 * FIX_ONE as int,
    )
}

/// The aspiration sample: band-passed noise opened by the phase, scaled by
/// breathiness (one minus the square root of tenseness), intensity, the
/// slow tremble walk and the aspiration level.
pub open spec fn spec_aspiration(
    phase: int,
    tenseness: int,
    intensity: int,
    aspiration_level: int,
    noise_y: int,
    wig_cv: int,
) -> int {
    let rate = fmul(tenseness, intensity);
    let s = spec_sin_turns(phase);
    let smax = if s > 0 {
        s
    } else {
        0
    };
    let modulator = flerp(19661, 6554 + fmul(13107, smax), rate);
    let shaped = fmul(modulator, noise_y);
    let root = crate::fixed::isqrt(tenseness * (FIX_ONE as int));
    let tremble = 13107 + fmul(655, wig_cv);
    fmul(
        fmul(fmul(fmul(intensity, (FIX_ONE as int) - root), shaped), tremble),
        aspiration_level,
    )
}

/// One whole glottal step as a function of the state and the smoothed
/// parameters: the advanced phase with its wrap flag, the produced sample,
/// and the next noise, wiggle and integral state.
pub open spec fn glottis_step(
    g: Glottis,
    frequency: int,
    tenseness: int,
    intensity: int,
    loudness: int,
    aspiration_level: int,
) -> (Glottis, int, bool) {
    let d = fclamp(fdiv(frequency, g.sample_rate as int), 1, FIX_ONE as int);
    let stepped = g.phase + d;
    let wrapped = stepped > FIX_ONE;
    let phase2 = if wrapped {
        stepped - (FIX_ONE as int)
    } else {
        stepped
    };
    let integral = table_at(g.waveform_integral@, phase2);
    let ns = spec_noise_step(g.aspiration_noise);
    let wig = spec_wiggle_step(g.wiggle);
    let voiced = spec_voiced(g.waveform_integral@, phase2, g.last_integral as int, d);
    let out = fmul(fmul(intensity, loudness), voiced) + spec_aspiration(
        phase2,
        tenseness,
        intensity,
        aspiration_level,
        ns.1,
        wig.current_value as int,
    );
    (
        Glottis {
            phase: phase2 as i64,
            last_integral: integral as i64,
            aspiration_noise: ns.0,
            wiggle: wig,
            table_stale: g.table_stale || wrapped,
            ..g
        },
        out,
        wrapped,
    )
}

pub struct Glottis {
    pub aspiration_noise: Noise,
    pub phase: i64,
    pub waveform_integral: Vec<i64>,
    pub last_integral: i64,
    pub sample_rate: i64,
    pub wiggle: Wiggle,
    pub table_stale: bool,
}

impl Glottis {
    pub open spec fn wf(self) -> bool {
        &&& self.aspiration_noise.wf()
        &&& 0 <= self.phase <= FIX_ONE
        &&& self.waveform_integral@.len() == TABLE_SIZE
        &&& forall|i: int|
            0 <= i < TABLE_SIZE ==> -FIX_ONE <= #[trigger] self.waveform_integral@[i] <= FIX_ONE
        &&& -FIX_ONE <= self.last_integral <= FIX_ONE
        &&& 131072000 <= self.sample_rate <= FIX_BOUND
        &&& self.wiggle.wf()
    }

    /// A silent glottis with a flat waveform table; the table is marked
    /// stale so a real one is installed before sound starts.
    pub fn new(sample_rate: i64, seed: u32) -> (r: Glottis)
        requires
            131072000 <= sample_rate <= FIX_BOUND,
            seed < 0xFFFFFFF0,
        ensures
            r.wf(),
            r.phase == 0,
            r.table_stale,
            r.sample_rate == sample_rate,
    {
        let mut table: Vec<i64> = Vec::new();
        let mut i: usize = 0;
        while i < TABLE_SIZE
            invariant
                i <= TABLE_SIZE,
                table@.len() == i,
                forall|j: int| 0 <= j < i ==> #[trigger] table@[j] == 0i64,
            decreases TABLE_SIZE - i,
        {
            table.push(0);
            i = i + 1;
        }
        let dtime: i64 = fix_div(FIX_ONE, sample_rate);
        proof {
            lemma_sdiv_abs((FIX_ONE as int) * (FIX_ONE as int), sample_rate as int);
            lemma_div_pos_is_pos((FIX_ONE as int) * (FIX_ONE as int), sample_rate as int);
            lemma_udiv_bound((FIX_ONE as int) * (FIX_ONE as int), sample_rate as int, 33);
            assert((FIX_ONE as int) * (FIX_ONE as int) <= (sample_rate as int) * 33)
                by (nonlinear_arith)
                requires
                    131072000 <= sample_rate,
                    FIX_ONE == 65536,
            ;
        }
        let dtime: i64 = if dtime < 1 {
            1
        } else {
            dtime
        };
        proof {
            lemma_fmul_bound(dtime as int, 655360, 33, 655360);
            lemma_sdiv_abs((dtime as int) * 655360, FIX_ONE as int);
        }
        Glottis {
            aspiration_noise: Noise::new(seed + 1, sample_rate, 32768000),
            phase: 0,
            waveform_integral: table,
            last_integral: 0,
            sample_rate,
            wiggle: Wiggle::new(dtime, 655360, seed + 2),
            table_stale: true,
        }
    }

    /// The current phase inside the pitch period, in `[0, 1)` of a turn.
    pub fn get_phase(&self) -> (r: i64)
        ensures
            r == self.phase,
    {
        self.phase
    }

    /// Install a freshly sampled waveform-integral table (one period of the
    /// integral, full scale at most one).
    pub fn set_waveform_integral(&mut self, table: &Vec<i64>)
        requires
            old(self).wf(),
            table@.len() == TABLE_SIZE,
            forall|i: int| 0 <= i < TABLE_SIZE ==> -FIX_ONE <= #[trigger] table@[i] <= FIX_ONE,
        ensures
            final(self).wf(),
            final(self).waveform_integral@ == table@,
            !final(self).table_stale,
            final(self).phase == old(self).phase,
            final(self).aspiration_noise == old(self).aspiration_noise,
            final(self).wiggle == old(self).wiggle,
            final(self).sample_rate == old(self).sample_rate,
    {
        let mut copy: Vec<i64> = Vec::new();
        let mut i: usize = 0;
        while i < TABLE_SIZE
            invariant
                i <= TABLE_SIZE,
                table@.len() == TABLE_SIZE,
                copy@.len() == i,
                forall|j: int| 0 <= j < i ==> #[trigger] copy@[j] == table@[j],
            decreases TABLE_SIZE - i,
        {
            copy.push(table[i]);
            i = i + 1;
        }
        proof {
            assert(copy@ =~= table@);
        }
        self.waveform_integral = copy;
        self.table_stale = false;
    }

    /// Read the waveform integral at a phase; exact per `table_at` and
    /// inside `[-1, 1]`.
    fn integral_at(&self, phase: i64) -> (r: i64)
        requires
            self.wf(),
            0 <= phase <= FIX_ONE,
        ensures
            r == table_at(self.waveform_integral@, phase as int),
            -FIX_ONE <= r <= FIX_ONE,
    {
        let pos: i64 = phase * (TABLE_SIZE as i64);
        let cell0: i64 = div_pos(pos, FIX_ONE);
        let frac: i64 = pos - cell0 * FIX_ONE;
        proof {
            lemma_fundamental_div_mod(pos as int, FIX_ONE as int);
            lemma_mod_bound(pos as int, FIX_ONE as int);
            assert(65536int * 256int == 16777216int) by (nonlinear_arith);
            assert(FIX_ONE == 65536);
            assert(pos as int == (phase as int) * 256) by (nonlinear_arith)
                requires
                    pos as int == (phase as int) * (TABLE_SIZE as int),
                    TABLE_SIZE == 256,
            ;
            assert(pos as int <= 16777216) by (nonlinear_arith)
                requires
                    pos as int == (phase as int) * 256,
                    phase <= 65536,
            ;
            lemma_udiv_bound(pos as int, 65536, 256);
            assert(cell0 <= TABLE_SIZE);
        }
        let cell: i64 = if cell0 < TABLE_SIZE as i64 {
            cell0
        } else {
            TABLE_SIZE as i64 - 1
        };
        let a: i64 = self.waveform_integral[cell as usize];
        let b: i64 = if (cell as usize) + 1 < TABLE_SIZE {
            self.waveform_integral[(cell as usize) + 1]
        } else {
            self.waveform_integral[0]
        };
        lerp_fix(a, b, frac)
    }

    /// One sample of glottal excitation: advance the phase (signalling a
    /// completed period), differentiate the waveform integral for the
    /// voiced part, and add shaped aspiration noise. The returned flag asks
    /// the caller to refresh the waveform table for the new period; the
    /// wrap sample itself is still read from the table in place, so a
    /// fresh table takes effect one sample after the period boundary.
    pub fn process(
        &mut self,
        frequency: i64,
        tenseness: i64,
        intensity: i64,
        loudness: i64,
        aspiration_level: i64,
    ) -> (out: (i64, bool))
        requires
            old(self).wf(),
            65536 <= frequency <= 655360000,
            0 <= tenseness <= FIX_ONE,
            0 <= intensity <= FIX_ONE,
            0 <= loudness <= FIX_ONE,
            0 <= aspiration_level <= FIX_ONE,
        ensures
            final(self).wf(),
            -524288 <= out.0 <= 524288,
            ({
                let d = fdiv(frequency as int, old(self).sample_rate as int);
                let stepped = old(self).phase + (if d < 1 {
                    1int
                } else if d > FIX_ONE {
                    FIX_ONE as int
                } else {
                    d
                });
                &&& out.1 == (stepped > FIX_ONE)
                &&& final(self).phase == (if stepped > FIX_ONE {
                    stepped - FIX_ONE
                } else {
                    stepped
                })
            }),
            final(self).sample_rate == old(self).sample_rate,
            final(self).waveform_integral@ == old(self).waveform_integral@,
            final(self).table_stale == (old(self).table_stale || out.1),
            *final(self) == glottis_step(
                *old(self),
                frequency as int,
                tenseness as int,
                intensity as int,
                loudness as int,
                aspiration_level as int,
            ).0,
            out.0 == glottis_step(
                *old(self),
                frequency as int,
                tenseness as int,
                intensity as int,
                loudness as int,
                aspiration_level as int,
            ).1,
            out.1 == glottis_step(
                *old(self),
                frequency as int,
                tenseness as int,
                intensity as int,
                loudness as int,
                aspiration_level as int,
            ).2,
            final(self).last_integral == table_at(
                old(self).waveform_integral@,
                final(self).phase as int,
            ),
            final(self).aspiration_noise == spec_noise_step(old(self).aspiration_noise).0,
            final(self).wiggle == spec_wiggle_step(old(self).wiggle),
            ({
                let d = fclamp(
                    fdiv(frequency as int, old(self).sample_rate as int),
                    1,
                    FIX_ONE as int,
                );
                let voiced = spec_voiced(
                    old(self).waveform_integral@,
                    final(self).phase as int,
                    old(self).last_integral as int,
                    d,
                );
                out.0 == fmul(fmul(intensity as int, loudness as int), voiced) + spec_aspiration(
                    final(self).phase as int,
                    tenseness as int,
                    intensity as int,
                    aspiration_level as int,
                    spec_noise_step(old(self).aspiration_noise).1,
                    spec_wiggle_step(old(self).wiggle).current_value as int,
                )
            }),
    {
        let d_raw: i64 = fix_div(frequency, self.sample_rate);
        proof {
            lemma_sdiv_abs((frequency as int) * (FIX_ONE as int), self.sample_rate as int);
            lemma_div_pos_is_pos((frequency as int) * (FIX_ONE as int), self.sample_rate as int);
        }
        let d: i64 = clamp_fix(d_raw, 1, FIX_ONE);
        let stepped: i64 = self.phase + d;
        let wrapped: bool = stepped > FIX_ONE;
        self.phase = if wrapped {
            stepped - FIX_ONE
        } else {
            stepped
        };
        if wrapped {
            self.table_stale = true;
        }
        let noise: i64 = self.aspiration_noise.process();
        let integral: i64 = self.integral_at(self.phase);
        let delta: i64 = integral - self.last_integral;
        self.last_integral = integral;
        let voiced: i64 = clamp_fix(fix_div(delta, d), -2 * FIX_ONE, 2 * FIX_ONE);
        proof {
            lemma_fmul_bound(intensity as int, loudness as int, FIX_ONE as int, FIX_ONE as int);
            lemma_fmul_bound(fmul(intensity as int, loudness as int), voiced as int, FIX_ONE as int, 131072);
        }
        let voiced_out: i64 = fix_mul(fix_mul(intensity, loudness), voiced);
        proof {
            lemma_fmul_bound(tenseness as int, intensity as int, FIX_ONE as int, FIX_ONE as int);
        }
        let rate: i64 = fix_mul(tenseness, intensity);
        let s: i64 = sin_turns(self.phase);
        let smax: i64 = if s > 0 {
            s
        } else {
            0
        };
        proof {
            lemma_fmul_bound(13107, smax as int, 13107, FIX_ONE as int);
        }
        let voiced_mod: i64 = 6554 + fix_mul(13107, smax);
        let modulator: i64 = lerp_fix(19661, voiced_mod, rate);
        proof {
            lemma_fmul_bound(modulator as int, noise as int, 32768, 524288);
        }
        let shaped: i64 = fix_mul(modulator, noise);
        let root: i64 = sqrt_fix(tenseness);
        proof {
            crate::fixed::lemma_isqrt_unique((tenseness as int) * (FIX_ONE as int), root as int);
            assert(root <= FIX_ONE) by {
                if root > FIX_ONE {
                    assert((root as int) * (root as int) > (FIX_ONE as int) * (FIX_ONE as int))
                        by (nonlinear_arith)
                        requires
                            root > FIX_ONE,
                            FIX_ONE == 65536,
                    ;
                    assert((tenseness as int) * (FIX_ONE as int) <= (FIX_ONE as int) * (
                    FIX_ONE as int)) by (nonlinear_arith)
                        requires
                            tenseness <= FIX_ONE,
                    ;
                }
            }
        }
        let wig: i64 = self.wiggle.process();
        proof {
            lemma_fmul_bound(655, wig as int, 655, 262144);
        }
        let tremble: i64 = 13107 + fix_mul(655, wig);
        proof {
            lemma_fmul_bound(intensity as int, (FIX_ONE - root) as int, FIX_ONE as int, FIX_ONE as int);
            lemma_fmul_bound(
                fmul(intensity as int, (FIX_ONE - root) as int),
                shaped as int,
                FIX_ONE as int,
                262144,
            );
            lemma_fmul_bound(
                fmul(fmul(intensity as int, (FIX_ONE - root) as int), shaped as int),
                tremble as int,
                262144,
                15727,
            );
            lemma_fmul_bound(
                fmul(
                    fmul(fmul(intensity as int, (FIX_ONE - root) as int), shaped as int),
                    tremble as int,
                ),
                aspiration_level as int,
                62914,
                FIX_ONE as int,
            );
        }
        let aspiration: i64 = fix_mul(
            fix_mul(fix_mul(fix_mul(intensity, FIX_ONE - root), shaped), tremble),
            aspiration_level,
        );
        proof {
            assert(*self == glottis_step(
                *old(self),
                frequency as int,
                tenseness as int,
                intensity as int,
                loudness as int,
                aspiration_level as int,
            ).0);
        }
        (voiced_out + aspiration, wrapped)
    }
}

/// With a constant per-sample phase increment `d`, the phase completes
/// exactly one cycle every `1/d` samples: starting from zero, the first
/// wrap happens at step `floor(1/d) + 1`, so a period lasts within one
/// sample of `sample_rate / frequency` samples.
pub proof fn lemma_phase_cycle(d: int)
    requires
        1 <= d <= FIX_ONE,
    ensures
        ({
            let n = (FIX_ONE as int) / d + 1;
            (n - 1) * d <= FIX_ONE < n * d
        }),
{
    let s: int = FIX_ONE as int;
    lemma_fundamental_div_mod(s, d);
    lemma_mod_bound(s, d);
    assert((s / d) * d <= s) by (nonlinear_arith)
        requires
            d * (s / d) + s % d == s,
            s % d >= 0,
    ;
    assert((s / d + 1) * d > s) by (nonlinear_arith)
        requires
            d * (s / d) + s % d == s,
            s % d < d,
    ;
}

} // verus!
