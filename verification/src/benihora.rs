//! The assembled kernel: glottis into tract, resampled from the inner
//! simulation rate to the host rate; and the managed wrapper that drives it
//! from smoothed parameters on a block cadence.

use vstd::prelude::*;
use vstd::arithmetic::div_mod::{lemma_div_pos_is_pos, lemma_fundamental_div_mod, lemma_mod_bound};
use crate::fixed::{
    clamp_fix, div_pos, fix_mul, lemma_fmul_bound, lemma_sdiv_abs, lemma_udiv_bound,
    sqrt_fix, FIX_BOUND, FIX_ONE,
};
use crate::glottis::Glottis;
use crate::managed::{
    Frequency, Intensity, Loudness, ManagedTract, PIDParam, Tenseness, FREQ_MAX, FREQ_MIN,
};
use crate::recorder::WaveformRecorder;
use crate::resample::{Resample, SAMPLE_LIMIT};
use crate::timer::IntervalTimer;
use crate::tract::Tract;

verus! {

/// Lowest host sample rate accepted (8 kHz, fixed point).
pub const HOST_RATE_MIN: i64 = 524288000;

/// The inner solver-step budget per second implied by a sound speed:
/// scaled from the 48 kHz reference.
pub open spec fn spec_tract_steps(sound_speed: int) -> int {
    crate::fixed::fmul(3145728000, sound_speed)
}

/// How many whole solver steps run per inner sample: the step budget per
/// host sample, rounded to the nearest whole step and kept between one and
/// eight.
pub open spec fn spec_solver_steps(sound_speed: int, sample_rate: int) -> int {
    crate::fixed::fclamp(
        (spec_tract_steps(sound_speed) + sample_rate / 2) / sample_rate,
        1,
        8,
    )
}

/// The inner sample rate: the step budget spread over the solver steps,
/// scaled by the oversampling factor, and clamped into the window the
/// kernel supports (at least 2 kHz and a sixty-fourth of the host rate, at
/// most the arithmetic ceiling over the solver steps).
pub open spec fn spec_inner_rate(sound_speed: int, sample_rate: int, over_sample: int) -> int {
    let steps = spec_solver_steps(sound_speed, sample_rate);
    let inner1 = crate::fixed::fmul(spec_tract_steps(sound_speed) / steps, over_sample);
    let hi = (FIX_BOUND as int) / steps;
    let lo0 = sample_rate / 64 + 1;
    let lo = if lo0 < 131072000 {
        131072000
    } else {
        lo0
    };
    crate::fixed::fclamp(inner1, lo, hi)
}

/// One inner sample inside the kernel loop: the glottis steps (its sample
/// becomes the monitored glottal output), the tract processes that sample,
/// and everything else stands still.
pub open spec fn inner_sample_rel(
    pre: Benihora,
    post: Benihora,
    frequency: int,
    tenseness: int,
    intensity: int,
    loudness: int,
    aspiration_level: int,
    tract_intensity: int,
    t: int,
) -> bool {
    let g = crate::glottis::glottis_step(
        pre.glottis,
        frequency,
        tenseness,
        intensity,
        loudness,
        aspiration_level,
    );
    &&& post.glottis == g.0
    &&& post.glottal_output as int == g.1
    &&& crate::tract::tract_process_rel(pre.tract, post.tract, tract_intensity, g.1, t)
    &&& post.resample == pre.resample
    &&& post.sample_rate == pre.sample_rate
    &&& post.force_turbulence == pre.force_turbulence
}

/// Exactly what `Benihora::process` establishes: a chain of inner samples
/// (glottis into tract) feeds the resampler, whose clamped output is the
/// host sample.
pub open spec fn benihora_process_rel(
    pre: Benihora,
    post: Benihora,
    frequency: int,
    tenseness: int,
    intensity: int,
    loudness: int,
    aspiration_level: int,
    out: int,
) -> bool {
    &&& post.wf()
    &&& -FIX_ONE <= out <= FIX_ONE
    &&& post.sample_rate == pre.sample_rate
    &&& post.force_turbulence == pre.force_turbulence
    &&& post.tract.source == pre.tract.source
    &&& post.tract.target_diameter == pre.tract.target_diameter
    &&& post.glottis.sample_rate == pre.glottis.sample_rate
    &&& ({
        let tract_intensity: int = if pre.force_turbulence {
            FIX_ONE as int
        } else {
            intensity
        };
        let k = pre.resample.spec_needed();
        exists|chain: Seq<Benihora>|
            (#[trigger] chain.len()) == k + 1 && chain[0] == pre && post.glottis == chain[
                k].glottis && post.tract == chain[k].tract && post.glottal_output == chain[
                k].glottal_output && exists|samples: Seq<i64>|
                (#[trigger] samples.len()) == k && (forall|i: int|
                    0 <= i < k ==> inner_sample_rel(
                        chain[i],
                        chain[i + 1],
                        frequency,
                        tenseness,
                        intensity,
                        loudness,
                        aspiration_level,
                        tract_intensity,
                        samples[i] as int,
                    )) && exists|raw: int|
                    #[trigger] crate::resample::resample_process_rel(
                        pre.resample,
                        post.resample,
                        samples,
                        raw,
                    ) && out == crate::fixed::fclamp(raw, -(FIX_ONE as int), FIX_ONE as int)
    })
}

pub struct Benihora {
    pub force_turbulence: bool,
    pub sample_rate: i64,
    pub glottis: Glottis,
    pub tract: Tract,
    pub resample: Resample,
    pub glottal_output: i64,
}

impl Benihora {
    pub open spec fn wf(self) -> bool {
        &&& HOST_RATE_MIN <= self.sample_rate <= FIX_BOUND
        &&& self.glottis.wf()
        &&& self.tract.wf()
        &&& self.resample.wf()
        &&& -524288 <= self.glottal_output <= 524288
    }

    /// Assemble a kernel: the inner rate follows the sound speed (scaled
    /// from a 48 kHz reference), split into whole solver steps per inner
    /// sample, and resampled to the host rate.
    pub fn new(
        sound_speed: i64,
        sample_rate: i64,
        over_sample: i64,
        seed: u32,
        force_turbulence: bool,
    ) -> (r: Benihora)
        requires
            FIX_ONE <= sound_speed <= 5 * FIX_ONE,
            HOST_RATE_MIN <= sample_rate <= FIX_BOUND,
            FIX_ONE <= over_sample <= 2 * FIX_ONE,
            seed < 0xFFFFFF00,
        ensures
            r.wf(),
            r.sample_rate == sample_rate,
            r.force_turbulence == force_turbulence,
            r.glottal_output == 0,
            r.tract.source.other_constrictions@.len() == 0,
            r.tract.steps_per_process == spec_solver_steps(sound_speed as int, sample_rate as int),
            r.tract.sample_rate == spec_inner_rate(
                sound_speed as int,
                sample_rate as int,
                over_sample as int,
            ),
            r.glottis.sample_rate == spec_inner_rate(
                sound_speed as int,
                sample_rate as int,
                over_sample as int,
            ),
            ({
                let inner = spec_inner_rate(sound_speed as int, sample_rate as int, over_sample as int);
                &&& inner < sample_rate ==> r.resample.algo is UpSample
                &&& inner > sample_rate ==> r.resample.algo is DownSample
                &&& inner == sample_rate ==> r.resample.algo is Identity
            }),
    {
        proof {
            lemma_fmul_bound(3145728000, sound_speed as int, 3145728000, 5 * (FIX_ONE as int));
            lemma_sdiv_abs(3145728000 * (sound_speed as int), FIX_ONE as int);
            lemma_div_pos_is_pos(3145728000 * (sound_speed as int), FIX_ONE as int);
            assert(3145728000 * (sound_speed as int) >= (FIX_ONE as int) * 3145728000)
                by (nonlinear_arith)
                requires
                    sound_speed >= FIX_ONE,
            ;
            lemma_udiv_bound(
                (FIX_ONE as int) * 3145728000,
                FIX_ONE as int,
                3145728000,
            );
            crate::fixed::lemma_udiv_bound(3145728000 * (FIX_ONE as int), FIX_ONE as int, 3145728000);
            vstd::arithmetic::div_mod::lemma_div_is_ordered(
                (FIX_ONE as int) * 3145728000,
                3145728000 * (sound_speed as int),
                FIX_ONE as int,
            );
            assert((FIX_ONE as int) * 3145728000 / (FIX_ONE as int) == 3145728000) by {
                vstd::arithmetic::div_mod::lemma_div_multiples_vanish(
                    3145728000,
                    FIX_ONE as int,
                );
            }
        }
        let tract_steps: i64 = fix_mul(3145728000, sound_speed);
        let half: i64 = div_pos(sample_rate, 2);
        let k0: i64 = div_pos(tract_steps + half, sample_rate);
        // the step cap only bites when the host rate drops below about a
        // third of the reference rate times the sound speed
        let steps: i64 = clamp_fix(k0, 1, 8);
        let inner0: i64 = div_pos(tract_steps, steps);
        proof {
            lemma_fmul_bound(inner0 as int, over_sample as int, 0x400000000, 2 * (
            FIX_ONE as int));
        }
        let inner1: i64 = fix_mul(inner0, over_sample);
        let hi: i64 = div_pos(FIX_BOUND, steps);
        let lo0: i64 = div_pos(sample_rate, 64) + 1;
        let lo: i64 = if lo0 < 131072000 {
            131072000
        } else {
            lo0
        };
        proof {
            lemma_fundamental_div_mod(FIX_BOUND as int, steps as int);
            lemma_mod_bound(FIX_BOUND as int, steps as int);
            lemma_fundamental_div_mod(sample_rate as int, 64);
            lemma_mod_bound(sample_rate as int, 64);
            assert((hi as int) * (steps as int) <= FIX_BOUND as int) by (nonlinear_arith)
                requires
                    (steps as int) * (hi as int) + (FIX_BOUND as int) % (steps as int)
                        == FIX_BOUND as int,
                    (FIX_BOUND as int) % (steps as int) >= 0,
            ;
            assert(hi >= 0x400000000int / 8) by {
                vstd::arithmetic::div_mod::lemma_div_is_ordered_by_denominator(
                    FIX_BOUND as int,
                    steps as int,
                    8,
                );
            }
            assert(0x400000000int / 8 == 0x80000000int) by {
                vstd::arithmetic::div_mod::lemma_div_multiples_vanish(0x80000000, 8);
                assert(8int * 0x80000000int == 0x400000000int) by (nonlinear_arith);
            }
        }
        let inner: i64 = clamp_fix(inner1, lo, hi);
        proof {
            assert((inner as int) * (steps as int) <= (hi as int) * (steps as int))
                by (nonlinear_arith)
                requires
                    inner <= hi,
                    steps >= 1,
                    inner >= 0,
            ;
            assert(64 * (inner as int) >= sample_rate as int) by (nonlinear_arith)
                requires
                    inner >= lo0,
                    lo0 == sample_rate as int / 64 + 1,
                    64 * (sample_rate as int / 64) + (sample_rate as int) % 64
                        == sample_rate as int,
                    (sample_rate as int) % 64 < 64,
            ;
        }
        Benihora {
            force_turbulence,
            sample_rate,
            glottis: Glottis::new(inner, seed),
            tract: Tract::new(steps as usize, inner, seed + 1),
            resample: Resample::new(inner, sample_rate),
            glottal_output: 0,
        }
    }

    /// The last raw glottal sample, for display.
    pub fn get_glottal_output(&self) -> (r: i64)
        ensures
            r == self.glottal_output,
    {
        self.glottal_output
    }

    /// One host-rate sample: the resampler decides how many inner samples
    /// are due; each one runs the glottis and then the tract. The output
    /// sample is clamped to full scale.
    pub fn process(
        &mut self,
        frequency: i64,
        tenseness: i64,
        intensity: i64,
        loudness: i64,
        aspiration_level: i64,
    ) -> (out: i64)
        requires
            old(self).wf(),
            FIX_ONE <= frequency <= FREQ_MAX,
            0 <= tenseness <= FIX_ONE,
            0 <= intensity <= FIX_ONE,
            0 <= loudness <= FIX_ONE,
            0 <= aspiration_level <= FIX_ONE,
        ensures
            final(self).wf(),
            -FIX_ONE <= out <= FIX_ONE,
            final(self).sample_rate == old(self).sample_rate,
            final(self).force_turbulence == old(self).force_turbulence,
            final(self).tract.source == old(self).tract.source,
            final(self).tract.target_diameter == old(self).tract.target_diameter,
            final(self).glottis.sample_rate == old(self).glottis.sample_rate,
            benihora_process_rel(
                *old(self),
                *final(self),
                frequency as int,
                tenseness as int,
                intensity as int,
                loudness as int,
                aspiration_level as int,
                out as int,
            ),
    {
        let tract_intensity: i64 = if self.force_turbulence {
            FIX_ONE
        } else {
            intensity
        };
        let k: usize = self.resample.steps_needed();
        let mut samples: Vec<i64> = Vec::new();
        let ghost mut chain: Seq<Benihora> = seq![*self];
        let mut i: usize = 0;
        while i < k
            invariant
                i <= k,
                k <= 65,
                k == old(self).resample.spec_needed(),
                chain.len() == i + 1,
                chain[0] == *old(self),
                chain.last() == *self,
                0 <= tract_intensity <= FIX_ONE,
                tract_intensity as int == (if old(self).force_turbulence {
                    FIX_ONE as int
                } else {
                    intensity as int
                }),
                forall|j: int|
                    0 <= j < i ==> inner_sample_rel(
                        chain[j],
                        chain[j + 1],
                        frequency as int,
                        tenseness as int,
                        intensity as int,
                        loudness as int,
                        aspiration_level as int,
                        tract_intensity as int,
                        samples@[j] as int,
                    ),
                self.glottis.wf(),
                self.tract.wf(),
                self.resample == old(self).resample,
                self.sample_rate == old(self).sample_rate,
                self.force_turbulence == old(self).force_turbulence,
                -524288 <= self.glottal_output <= 524288,
                FIX_ONE <= frequency <= FREQ_MAX,
                0 <= tenseness <= FIX_ONE,
                0 <= intensity <= FIX_ONE,
                0 <= loudness <= FIX_ONE,
                0 <= aspiration_level <= FIX_ONE,
                samples@.len() == i,
                self.tract.source == old(self).tract.source,
                self.tract.target_diameter == old(self).tract.target_diameter,
                self.glottis.sample_rate == old(self).glottis.sample_rate,
                forall|j: int|
                    0 <= j < i ==> -SAMPLE_LIMIT <= #[trigger] samples@[j] <= SAMPLE_LIMIT,
            decreases k - i,
        {
            let ghost pre_inner: Benihora = *self;
            let g: (i64, bool) = self.glottis.process(
                frequency,
                tenseness,
                intensity,
                loudness,
                aspiration_level,
            );
            self.glottal_output = g.0;
            let t: i64 = self.tract.process(tract_intensity, g.0);
            samples.push(t);
            proof {
                chain = chain.push(*self);
                assert(inner_sample_rel(
                    pre_inner,
                    *self,
                    frequency as int,
                    tenseness as int,
                    intensity as int,
                    loudness as int,
                    aspiration_level as int,
                    tract_intensity as int,
                    t as int,
                ));
            }
            i = i + 1;
        }
        let raw: i64 = self.resample.process(&samples);
        let out: i64 = clamp_fix(raw, -FIX_ONE, FIX_ONE);
        proof {
            let k_spec = old(self).resample.spec_needed();
            let ti: int = if old(self).force_turbulence {
                FIX_ONE as int
            } else {
                intensity as int
            };
            assert(crate::resample::resample_process_rel(
                old(self).resample,
                self.resample,
                samples@,
                raw as int,
            ) && out == crate::fixed::fclamp(raw as int, -(FIX_ONE as int), FIX_ONE as int));
            assert(exists|r2: int|
                #[trigger] crate::resample::resample_process_rel(
                    old(self).resample,
                    self.resample,
                    samples@,
                    r2,
                ) && out == crate::fixed::fclamp(r2, -(FIX_ONE as int), FIX_ONE as int));
            assert((samples@.len()) == k_spec && (forall|i2: int|
                0 <= i2 < k_spec ==> inner_sample_rel(
                    chain[i2],
                    chain[i2 + 1],
                    frequency as int,
                    tenseness as int,
                    intensity as int,
                    loudness as int,
                    aspiration_level as int,
                    ti,
                    samples@[i2] as int,
                )) && exists|r2: int|
                #[trigger] crate::resample::resample_process_rel(
                    old(self).resample,
                    self.resample,
                    samples@,
                    r2,
                ) && out == crate::fixed::fclamp(r2, -(FIX_ONE as int), FIX_ONE as int));
            assert(exists|s2: Seq<i64>|
                (#[trigger] s2.len()) == k_spec && (forall|i2: int|
                    0 <= i2 < k_spec ==> inner_sample_rel(
                        chain[i2],
                        chain[i2 + 1],
                        frequency as int,
                        tenseness as int,
                        intensity as int,
                        loudness as int,
                        aspiration_level as int,
                        ti,
                        s2[i2] as int,
                    )) && exists|r2: int|
                    #[trigger] crate::resample::resample_process_rel(
                        old(self).resample,
                        self.resample,
                        s2,
                        r2,
                    ) && out == crate::fixed::fclamp(r2, -(FIX_ONE as int), FIX_ONE as int));
            assert((chain.len()) == k_spec + 1 && chain[0] == *old(self) && self.glottis == chain[
                k_spec as int].glottis && self.tract == chain[k_spec as int].tract
                && self.glottal_output == chain[k_spec as int].glottal_output);
            assert(exists|c2: Seq<Benihora>|
                (#[trigger] c2.len()) == k_spec + 1 && c2[0] == *old(self) && self.glottis == c2[
                    k_spec as int].glottis && self.tract == c2[k_spec as int].tract
                    && self.glottal_output == c2[k_spec as int].glottal_output && exists|
                    s2: Seq<i64>,
                |
                    (#[trigger] s2.len()) == k_spec && (forall|i2: int|
                        0 <= i2 < k_spec ==> inner_sample_rel(
                            c2[i2],
                            c2[i2 + 1],
                            frequency as int,
                            tenseness as int,
                            intensity as int,
                            loudness as int,
                            aspiration_level as int,
                            ti,
                            s2[i2] as int,
                        )) && exists|r2: int|
                        #[trigger] crate::resample::resample_process_rel(
                            old(self).resample,
                            self.resample,
                            s2,
                            r2,
                        ) && out == crate::fixed::fclamp(r2, -(FIX_ONE as int), FIX_ONE as int));
            assert(benihora_process_rel(
                *old(self),
                *self,
                frequency as int,
                tenseness as int,
                intensity as int,
                loudness as int,
                aspiration_level as int,
                out as int,
            ));
        }
        out
    }
}

/// The knob-level parameters the managed wrapper consumes each sample.
#[derive(Clone, Copy)]
pub struct Params {
    pub always_sound: bool,
    pub frequency_pid: PIDParam,
    pub intensity_pid: PIDParam,
    pub wobble_amount: i64,
    pub vibrato_amount: i64,
    pub vibrato_frequency: i64,
    pub aspiration_level: i64,
}

impl Params {
    pub open spec fn wf(self) -> bool {
        &&& self.frequency_pid.wf()
        &&& self.intensity_pid.wf()
        &&& 0 <= self.wobble_amount <= 5 * FIX_ONE
        &&& 0 <= self.vibrato_amount <= 6554
        &&& 6554 <= self.vibrato_frequency <= 20 * FIX_ONE
        &&& 0 <= self.aspiration_level <= FIX_ONE
    }

    /// The stock settings: firm pitch tracking, a fast intensity chase, a
    /// light wobble and a gentle six-hertz vibrato.
    pub fn new() -> (r: Params)
        ensures
            r.wf(),
            !r.always_sound,
    {
        Params {
            always_sound: false,
            frequency_pid: PIDParam::new(3276800, 1310720, 19661),
            intensity_pid: PIDParam::new(655360, 6553600, 0),
            wobble_amount: 6554,
            vibrato_amount: 328,
            vibrato_frequency: 393216,
            aspiration_level: FIX_ONE,
        }
    }
}

/// The block phase of one managed sample: when the block timer has fired,
/// the pitch vibrato, the tenseness wobble, the tongue chase and the
/// target-profile recomputation all run; otherwise nothing changes.
pub open spec fn managed_block_rel(pre: BenihoraManaged, post: BenihoraManaged, p: Params)
    -> bool {
    if !pre.update_timer.overflowed {
        post == pre
    } else {
        let w1 = crate::wiggle::spec_wiggle_step(pre.frequency.wiggles[0]);
        let w2 = crate::wiggle::spec_wiggle_step(pre.frequency.wiggles[1]);
        let t1 = crate::wiggle::spec_wiggle_step(pre.tenseness.wiggles[0]);
        let t2 = crate::wiggle::spec_wiggle_step(pre.tenseness.wiggles[1]);
        let tongue0 = pre.benihora.tract.source.tongue;
        let tstep = crate::fixed::fmul(1311, pre.tract.speed as int);
        let tx = crate::fixed::sdiv(pre.tract.tongue_target.0 - tongue0.0, 8);
        let ty = pre.tract.tongue_target.1 - tongue0.1;
        let td = crate::fixed::isqrt(
            (crate::fixed::fmul(tx, tx) + crate::fixed::fmul(ty, ty)) * (FIX_ONE as int),
        );
        let tongue2 = if td < 7 {
            tongue0
        } else {
            let dx = 8 * crate::fixed::fmul(crate::fixed::fdiv(tx, td), tstep);
            let dy = crate::fixed::fmul(crate::fixed::fdiv(ty, td), tstep);
            (
                crate::fixed::fclamp(
                    (if pre.tract.tongue_target.0 < tongue0.0 {
                        if tongue0.0 + dx > pre.tract.tongue_target.0 {
                            tongue0.0 + dx
                        } else {
                            pre.tract.tongue_target.0 as int
                        }
                    } else {
                        if tongue0.0 + dx < pre.tract.tongue_target.0 {
                            tongue0.0 + dx
                        } else {
                            pre.tract.tongue_target.0 as int
                        }
                    }),
                    crate::shape::TONGUE_INDEX_MIN as int,
                    crate::shape::TONGUE_INDEX_MAX as int,
                ) as i64,
                crate::fixed::fclamp(
                    (if pre.tract.tongue_target.1 < tongue0.1 {
                        if tongue0.1 + dy > pre.tract.tongue_target.1 {
                            tongue0.1 + dy
                        } else {
                            pre.tract.tongue_target.1 as int
                        }
                    } else {
                        if tongue0.1 + dy < pre.tract.tongue_target.1 {
                            tongue0.1 + dy
                        } else {
                            pre.tract.tongue_target.1 as int
                        }
                    }),
                    crate::shape::TONGUE_INNER as int,
                    crate::shape::TONGUE_OUTER as int,
                ) as i64,
            )
        };
        &&& post.frequency.old_vibrate == pre.frequency.new_vibrate
        &&& post.frequency.value == pre.frequency.value
        &&& post.frequency.target_frequency == pre.frequency.target_frequency
        &&& post.frequency.pitchbend == pre.frequency.pitchbend
        &&& post.frequency.pid == pre.frequency.pid
        &&& post.frequency.phase == (pre.frequency.phase + crate::fixed::fmul(
            1311,
            p.vibrato_frequency as int,
        )) % (FIX_ONE as int)
        &&& post.frequency.wiggles[0] == crate::wiggle::spec_wiggle_iter(
            pre.frequency.wiggles[0],
            4,
        )
        &&& post.frequency.wiggles[1] == crate::wiggle::spec_wiggle_iter(
            pre.frequency.wiggles[1],
            4,
        )
        &&& post.frequency.new_vibrate == crate::fixed::fclamp(
            FIX_ONE + crate::fixed::fmul(
                p.vibrato_amount as int,
                crate::fixed::spec_sin_turns(pre.frequency.phase as int),
            ) + crate::fixed::fmul(
                p.wobble_amount as int,
                crate::fixed::fmul(655, w1.current_value as int) + crate::fixed::fmul(
                    1311,
                    w2.current_value as int,
                ),
            ),
            0,
            2 * FIX_ONE as int,
        )
        &&& post.tenseness.old_tenseness == pre.tenseness.new_tenseness
        &&& post.tenseness.target_tenseness == pre.tenseness.target_tenseness
        &&& post.tenseness.wobble_amount == pre.tenseness.wobble_amount
        &&& post.tenseness.wiggles[0] == t1
        &&& post.tenseness.wiggles[1] == t2
        &&& post.tenseness.new_tenseness == crate::fixed::fclamp(
            pre.tenseness.target_tenseness + crate::fixed::fmul(
                crate::fixed::fmul(3277, t1.current_value as int) + crate::fixed::fmul(
                    1638,
                    t2.current_value as int,
                ),
                pre.tenseness.wobble_amount as int,
            ),
            0,
            FIX_ONE as int,
        )
        &&& post.tract == pre.tract
        &&& post.benihora.tract.source.tongue == tongue2
        &&& post.benihora.tract.source.other_constrictions
            == pre.benihora.tract.source.other_constrictions
        &&& post.benihora.tract.target_diameter.mouth@ == crate::shape::apply_constrictions(
            crate::shape::mouth_after_tongue(tongue2.0 as int, tongue2.1 as int),
            pre.benihora.tract.source.other_constrictions@,
        )
        &&& post.benihora.tract.target_diameter.nose@
            == pre.benihora.tract.target_diameter.nose@
        &&& post.benihora.tract.state.turbulences@ == crate::tract::ensure_turbs(
            crate::tract::all_off(pre.benihora.tract.state.turbulences@),
            pre.benihora.tract.source.other_constrictions@,
        )
        &&& post.benihora.tract.state.r@ == pre.benihora.tract.state.r@
        &&& post.benihora.tract.state.l@ == pre.benihora.tract.state.l@
        &&& post.benihora.tract.state.nose_r@ == pre.benihora.tract.state.nose_r@
        &&& post.benihora.tract.state.nose_l@ == pre.benihora.tract.state.nose_l@
        &&& post.benihora.tract.state.transients@ == pre.benihora.tract.state.transients@
        &&& post.benihora.tract.current_diameter == pre.benihora.tract.current_diameter
        &&& post.benihora.tract.reflections == pre.benihora.tract.reflections
        &&& post.benihora.tract.new_reflections == pre.benihora.tract.new_reflections
        &&& post.benihora.tract.update_timer == pre.benihora.tract.update_timer
        &&& post.benihora.tract.movement_speed == pre.benihora.tract.movement_speed
        &&& post.benihora.glottis == pre.benihora.glottis
        &&& post.benihora.resample == pre.benihora.resample
        &&& post.benihora.glottal_output == pre.benihora.glottal_output
        &&& post.benihora.sample_rate == pre.benihora.sample_rate
        &&& post.benihora.force_turbulence == pre.benihora.force_turbulence
        &&& post.sound == pre.sound
        &&& post.intensity == pre.intensity
        &&& post.loudness == pre.loudness
        &&& post.update_timer == pre.update_timer
        &&& post.sample_rate == pre.sample_rate
        &&& post.dtime == pre.dtime
        &&& post.waveform_recorder == pre.waveform_recorder
    }
}

/// Exactly what `BenihoraManaged::process` establishes, as a predicate.
pub open spec fn managed_process_rel(
    pre: BenihoraManaged,
    post: BenihoraManaged,
    p: Params,
    out: int,
) -> bool {
    &&& post.wf()
    &&& -FIX_ONE <= out <= FIX_ONE
    &&& post.sample_rate == pre.sample_rate
    &&& post.sound == pre.sound
    &&& post.frequency.target_frequency == pre.frequency.target_frequency
    &&& post.frequency.pitchbend == pre.frequency.pitchbend
    &&& post.tenseness.target_tenseness == pre.tenseness.target_tenseness
    &&& post.loudness.target == pre.loudness.target
    &&& exists|mid: BenihoraManaged|
        #[trigger] managed_block_rel(pre, mid, p) && ({
            let lambda = crate::fixed::fdiv(
                mid.update_timer.time as int,
                mid.update_timer.interval as int,
            );
            let target: int = if mid.sound || p.always_sound {
                FIX_ONE as int
            } else {
                0
            };
            let ist = crate::managed::pid_step(
                mid.intensity.pid.integral as int,
                mid.intensity.pid.last as int,
                mid.intensity.pid.dtime as int,
                p.intensity_pid,
                target - mid.intensity.value,
            );
            let ival = crate::fixed::fclamp(
                mid.intensity.value + ist.1 + crate::managed::tick_mul(
                    mid.intensity.bias as int,
                    mid.intensity.pid.dtime as int,
                ),
                0,
                2 * FIX_ONE as int,
            );
            let intensity_c = crate::fixed::fclamp(ival, 0, FIX_ONE as int);
            let vib = crate::fixed::flerp(
                mid.frequency.old_vibrate as int,
                mid.frequency.new_vibrate as int,
                lambda,
            );
            let ftarget = crate::fixed::fclamp(
                crate::fixed::fmul(
                    crate::fixed::fmul(mid.frequency.target_frequency as int, vib),
                    mid.frequency.pitchbend as int,
                ),
                FREQ_MIN as int,
                FREQ_MAX as int,
            );
            let ferr = crate::fixed::fclamp(ftarget - mid.frequency.value, -0x40000000, 0x40000000);
            let fst = crate::managed::pid_step(
                mid.frequency.pid.integral as int,
                mid.frequency.pid.last as int,
                mid.frequency.pid.dtime as int,
                p.frequency_pid,
                ferr,
            );
            let fval = crate::fixed::fclamp(
                mid.frequency.value + fst.1,
                FREQ_MIN as int,
                FREQ_MAX as int,
            );
            let tval = crate::fixed::flerp(
                mid.tenseness.old_tenseness as int,
                mid.tenseness.new_tenseness as int,
                lambda,
            );
            let lstep = crate::managed::tick_mul(655360, mid.dtime as int);
            let lval = crate::shape::spec_move_towards(
                mid.loudness.current as int,
                mid.loudness.target as int,
                lstep,
                lstep,
            );
            &&& post.intensity.value == ival
            &&& post.frequency.value == fval
            &&& post.loudness.current == lval
            &&& post.update_timer.interval == mid.update_timer.interval
            &&& post.update_timer.time == (mid.update_timer.time + 1) % (
            mid.update_timer.interval as int)
            &&& post.update_timer.overflowed == (mid.update_timer.time + 1
                >= mid.update_timer.interval)
            &&& benihora_process_rel(
                mid.benihora,
                post.benihora,
                fval,
                tval,
                intensity_c,
                lval,
                p.aspiration_level as int,
                out,
            )
            &&& post.waveform_recorder.last_phase == post.benihora.glottis.phase
            &&& ({
                let ph = post.benihora.glottis.phase;
                let gg = post.benihora.glottal_output;
                let wr = mid.waveform_recorder;
                &&& (wr.last_phase <= ph && wr.waveform_@.len() < crate::recorder::RECORD_LIMIT
                    ==> post.waveform_recorder.waveform_@ == wr.waveform_@.push(gg)
                    && post.waveform_recorder.waveform@ == wr.waveform@)
                &&& (wr.last_phase > ph ==> post.waveform_recorder.waveform@ == wr.waveform_@
                    && post.waveform_recorder.waveform_@ == seq![gg])
            })
        })
}

/// The managed kernel: smoothed parameter controllers on a 20 ms block
/// cadence around the raw kernel.
pub struct BenihoraManaged {
    pub sound: bool,
    pub frequency: Frequency,
    pub tenseness: Tenseness,
    pub intensity: Intensity,
    pub loudness: Loudness,
    pub tract: ManagedTract,
    pub benihora: Benihora,
    pub update_timer: IntervalTimer,
    pub sample_rate: i64,
    pub dtime: i64,
    pub waveform_recorder: WaveformRecorder,
}

impl BenihoraManaged {
    pub open spec fn wf(self) -> bool {
        &&& self.frequency.wf()
        &&& self.tenseness.wf()
        &&& self.intensity.wf()
        &&& self.loudness.wf()
        &&& self.tract.wf()
        &&& self.benihora.wf()
        &&& self.update_timer.wf()
        &&& HOST_RATE_MIN <= self.sample_rate <= FIX_BOUND
        &&& 1 <= self.dtime <= crate::managed::TICK_SCALE
        &&& self.waveform_recorder.wf()
    }

    /// The number of host samples in one 20 ms parameter block.
    pub open spec fn spec_block_samples(sample_rate: int) -> int {
        let q = sample_rate / 3276800;
        if q < 1 {
            1
        } else {
            q
        }
    }

    /// A silent managed kernel at the given host rate: the block timer
    /// counts host samples (one block is a fiftieth of a second of them),
    /// and the per-sample controller step is held in fine ticks.
    pub fn new(sound_speed: i64, sample_rate: i64, over_sample: i64, seed: u32) -> (r:
        BenihoraManaged)
        requires
            FIX_ONE <= sound_speed <= 5 * FIX_ONE,
            HOST_RATE_MIN <= sample_rate <= FIX_BOUND,
            FIX_ONE <= over_sample <= 2 * FIX_ONE,
            seed < 0xFFFFFF00,
        ensures
            r.wf(),
            !r.sound,
            r.sample_rate == sample_rate,
            r.benihora.tract.source.other_constrictions@.len() == 0,
            r.update_timer.interval == BenihoraManaged::spec_block_samples(sample_rate as int),
            r.update_timer.overflowed,
            r.dtime == crate::managed::PIDController::spec_sample_ticks(sample_rate as int),
            r.frequency.target_frequency == 9175040,
            r.tenseness.target_tenseness == 39322,
            r.intensity.value == 0,
    {
        let q: i64 = div_pos(sample_rate, 3276800);
        proof {
            assert(3276800int * 1048576int == 3435973836800int) by (nonlinear_arith);
            lemma_udiv_bound(sample_rate as int, 3276800, 1048576);
            lemma_div_pos_is_pos(sample_rate as int, 3276800);
        }
        let interval: i64 = if q < 1 {
            1
        } else {
            q
        };
        let dt: i64 = crate::managed::sample_ticks(sample_rate);
        let loud0: i64 = sqrt_fix(sqrt_fix(39322));
        proof {
            lemma_root_unit(39322, sqrt_fix_ghost(39322));
        }
        BenihoraManaged {
            sound: false,
            frequency: Frequency::new(1311, seed, 9175040, sample_rate),
            tenseness: Tenseness::new(1311, seed, 39322),
            intensity: Intensity::new(sample_rate),
            loudness: Loudness::new(clamp_fix(loud0, 0, FIX_ONE)),
            tract: ManagedTract::new(),
            benihora: Benihora::new(sound_speed, sample_rate, over_sample, seed, false),
            update_timer: IntervalTimer::new_overflowed(interval),
            sample_rate,
            dtime: dt,
            waveform_recorder: WaveformRecorder::new(),
        }
    }

    /// Aim tenseness at a new target; loudness aims at its fourth root
    /// (two applications of the fixed-point square root).
    pub fn set_tenseness(&mut self, tenseness: i64)
        requires
            old(self).wf(),
        ensures
            final(self).wf(),
            final(self).tenseness.target_tenseness == crate::fixed::fclamp(
                tenseness as int,
                0,
                FIX_ONE as int,
            ),
            final(self).loudness.target == crate::fixed::fclamp(
                sqrt_fix_ghost(
                    sqrt_fix_ghost(crate::fixed::fclamp(tenseness as int, 0, FIX_ONE as int)),
                ),
                0,
                FIX_ONE as int,
            ),
            final(self).loudness.current == old(self).loudness.current,
            final(self).tenseness.old_tenseness == old(self).tenseness.old_tenseness,
            final(self).tenseness.new_tenseness == old(self).tenseness.new_tenseness,
            final(self).tenseness.wiggles == old(self).tenseness.wiggles,
            final(self).intensity == old(self).intensity,
            final(self).sound == old(self).sound,
            final(self).benihora == old(self).benihora,
            final(self).frequency == old(self).frequency,
    {
        let t: i64 = clamp_fix(tenseness, 0, FIX_ONE);
        self.tenseness.target_tenseness = t;
        let root: i64 = sqrt_fix(sqrt_fix(t));
        self.loudness.target = clamp_fix(root, 0, FIX_ONE);
    }

    /// One host sample: run the block updates when the timer fires, then
    /// advance the envelopes and the kernel.
    pub fn process(&mut self, params: &Params) -> (out: i64)
        requires
            old(self).wf(),
            params.wf(),
        ensures
            final(self).wf(),
            -FIX_ONE <= out <= FIX_ONE,
            final(self).sample_rate == old(self).sample_rate,
            final(self).sound == old(self).sound,
            final(self).frequency.target_frequency == old(self).frequency.target_frequency,
            final(self).frequency.pitchbend == old(self).frequency.pitchbend,
            final(self).tenseness.target_tenseness == old(self).tenseness.target_tenseness,
            final(self).loudness.target == old(self).loudness.target,
            managed_process_rel(*old(self), *final(self), *params, out as int),
            exists|mid: BenihoraManaged|
                #[trigger] managed_block_rel(*old(self), mid, *params) && ({
                    let lambda = crate::fixed::fdiv(
                        mid.update_timer.time as int,
                        mid.update_timer.interval as int,
                    );
                    let target: int = if mid.sound || params.always_sound {
                        FIX_ONE as int
                    } else {
                        0
                    };
                    let ist = crate::managed::pid_step(
                        mid.intensity.pid.integral as int,
                        mid.intensity.pid.last as int,
                        mid.intensity.pid.dtime as int,
                        params.intensity_pid,
                        target - mid.intensity.value,
                    );
                    let ival = crate::fixed::fclamp(
                        mid.intensity.value + ist.1 + crate::managed::tick_mul(
                            mid.intensity.bias as int,
                            mid.intensity.pid.dtime as int,
                        ),
                        0,
                        2 * FIX_ONE as int,
                    );
                    let intensity_c = crate::fixed::fclamp(ival, 0, FIX_ONE as int);
                    let vib = crate::fixed::flerp(
                        mid.frequency.old_vibrate as int,
                        mid.frequency.new_vibrate as int,
                        lambda,
                    );
                    let ftarget = crate::fixed::fclamp(
                        crate::fixed::fmul(
                            crate::fixed::fmul(mid.frequency.target_frequency as int, vib),
                            mid.frequency.pitchbend as int,
                        ),
                        FREQ_MIN as int,
                        FREQ_MAX as int,
                    );
                    let ferr = crate::fixed::fclamp(
                        ftarget - mid.frequency.value,
                        -0x40000000,
                        0x40000000,
                    );
                    let fst = crate::managed::pid_step(
                        mid.frequency.pid.integral as int,
                        mid.frequency.pid.last as int,
                        mid.frequency.pid.dtime as int,
                        params.frequency_pid,
                        ferr,
                    );
                    let fval = crate::fixed::fclamp(
                        mid.frequency.value + fst.1,
                        FREQ_MIN as int,
                        FREQ_MAX as int,
                    );
                    let tval = crate::fixed::flerp(
                        mid.tenseness.old_tenseness as int,
                        mid.tenseness.new_tenseness as int,
                        lambda,
                    );
                    let lstep = crate::managed::tick_mul(655360, mid.dtime as int);
                    let lval = crate::shape::spec_move_towards(
                        mid.loudness.current as int,
                        mid.loudness.target as int,
                        lstep,
                        lstep,
                    );
                    &&& final(self).intensity.value == ival
                    &&& final(self).frequency.value == fval
                    &&& final(self).loudness.current == lval
                    &&& final(self).update_timer.interval == mid.update_timer.interval
                    &&& final(self).update_timer.time == (mid.update_timer.time + 1) % (
                    mid.update_timer.interval as int)
                    &&& final(self).update_timer.overflowed == (mid.update_timer.time + 1
                        >= mid.update_timer.interval)
                    &&& benihora_process_rel(
                        mid.benihora,
                        final(self).benihora,
                        fval,
                        tval,
                        intensity_c,
                        lval,
                        params.aspiration_level as int,
                        out as int,
                    )
                    &&& final(self).waveform_recorder.last_phase == final(self).benihora.glottis.phase
                    &&& ({
                        let ph = final(self).benihora.glottis.phase;
                        let gg = final(self).benihora.glottal_output;
                        let wr = mid.waveform_recorder;
                        &&& (wr.last_phase <= ph && wr.waveform_@.len()
                            < crate::recorder::RECORD_LIMIT ==> final(self).waveform_recorder.waveform_@ == wr.waveform_@.push(gg) && final(self).waveform_recorder.waveform@ == wr.waveform@)
                        &&& (wr.last_phase > ph ==> final(self).waveform_recorder.waveform@
                            == wr.waveform_@ && final(self).waveform_recorder.waveform_@ == seq![
                            gg,
                        ])
                    })
                }),
    {
        if self.update_timer.overflowed() {
            self.frequency.update(
                1311,
                params.wobble_amount,
                params.vibrato_amount,
                params.vibrato_frequency,
            );
            self.tenseness.update();
            proof {
                assert(self.benihora.tract.source.wf());
            }
            self.tract.update(1311, &mut self.benihora.tract.source.tongue);
            self.benihora.tract.update_diameter();
        }
        let ghost mid: BenihoraManaged = *self;
        proof {
            assert(managed_block_rel(*old(self), mid, *params));
        }
        let lambda: i64 = self.update_timer.progress();
        self.update_timer.update(1);
        let target: i64 = if self.sound || params.always_sound {
            FIX_ONE
        } else {
            0
        };
        let raw_intensity: i64 = self.intensity.process(&params.intensity_pid, target);
        let intensity: i64 = clamp_fix(raw_intensity, 0, FIX_ONE);
        let frequency: i64 = self.frequency.get(&params.frequency_pid, lambda);
        let tenseness: i64 = self.tenseness.get(lambda);
        let loudness: i64 = self.loudness.process(self.dtime);
        let y: i64 = self.benihora.process(
            frequency,
            tenseness,
            intensity,
            loudness,
            params.aspiration_level,
        );
        let phase: i64 = self.benihora.glottis.get_phase();
        let g: i64 = self.benihora.get_glottal_output();
        self.waveform_recorder.record(phase, g);
        proof {
            assert(managed_block_rel(*old(self), mid, *params) && ({
                let lambda2 = crate::fixed::fdiv(
                    mid.update_timer.time as int,
                    mid.update_timer.interval as int,
                );
                let target2: int = if mid.sound || params.always_sound {
                    FIX_ONE as int
                } else {
                    0
                };
                let ist = crate::managed::pid_step(
                    mid.intensity.pid.integral as int,
                    mid.intensity.pid.last as int,
                    mid.intensity.pid.dtime as int,
                    params.intensity_pid,
                    target2 - mid.intensity.value,
                );
                let ival = crate::fixed::fclamp(
                    mid.intensity.value + ist.1 + crate::managed::tick_mul(
                        mid.intensity.bias as int,
                        mid.intensity.pid.dtime as int,
                    ),
                    0,
                    2 * FIX_ONE as int,
                );
                let intensity_c = crate::fixed::fclamp(ival, 0, FIX_ONE as int);
                let vib = crate::fixed::flerp(
                    mid.frequency.old_vibrate as int,
                    mid.frequency.new_vibrate as int,
                    lambda2,
                );
                let ftarget = crate::fixed::fclamp(
                    crate::fixed::fmul(
                        crate::fixed::fmul(mid.frequency.target_frequency as int, vib),
                        mid.frequency.pitchbend as int,
                    ),
                    FREQ_MIN as int,
                    FREQ_MAX as int,
                );
                let ferr = crate::fixed::fclamp(
                    ftarget - mid.frequency.value,
                    -0x40000000,
                    0x40000000,
                );
                let fst = crate::managed::pid_step(
                    mid.frequency.pid.integral as int,
                    mid.frequency.pid.last as int,
                    mid.frequency.pid.dtime as int,
                    params.frequency_pid,
                    ferr,
                );
                let fval = crate::fixed::fclamp(
                    mid.frequency.value + fst.1,
                    FREQ_MIN as int,
                    FREQ_MAX as int,
                );
                let tval = crate::fixed::flerp(
                    mid.tenseness.old_tenseness as int,
                    mid.tenseness.new_tenseness as int,
                    lambda2,
                );
                let lstep = crate::managed::tick_mul(655360, mid.dtime as int);
                let lval = crate::shape::spec_move_towards(
                    mid.loudness.current as int,
                    mid.loudness.target as int,
                    lstep,
                    lstep,
                );
                &&& self.intensity.value == ival
                &&& self.frequency.value == fval
                &&& self.loudness.current == lval
                &&& self.update_timer.interval == mid.update_timer.interval
                &&& self.update_timer.time == (mid.update_timer.time + 1) % (
                mid.update_timer.interval as int)
                &&& self.update_timer.overflowed == (mid.update_timer.time + 1
                    >= mid.update_timer.interval)
                &&& benihora_process_rel(
                    mid.benihora,
                    self.benihora,
                    fval,
                    tval,
                    intensity_c,
                    lval,
                    params.aspiration_level as int,
                    y as int,
                )
                &&& self.waveform_recorder.last_phase == self.benihora.glottis.phase
                &&& ({
                    let ph = self.benihora.glottis.phase;
                    let gg = self.benihora.glottal_output;
                    let wr = mid.waveform_recorder;
                    &&& (wr.last_phase <= ph && wr.waveform_@.len()
                        < crate::recorder::RECORD_LIMIT ==> self.waveform_recorder.waveform_@
                        == wr.waveform_@.push(gg) && self.waveform_recorder.waveform@
                        == wr.waveform@)
                    &&& (wr.last_phase > ph ==> self.waveform_recorder.waveform@
                        == wr.waveform_@ && self.waveform_recorder.waveform_@ == seq![gg])
                })
            }));
            assert(managed_process_rel(*old(self), *self, *params, y as int));
        }
        y
    }
}

/// The ghost value of the fixed square root, for stating bounds.
pub open spec fn sqrt_fix_ghost(x: int) -> int {
    crate::fixed::isqrt(x * (FIX_ONE as int))
}

/// The root of a unit-range value stays in unit range.
proof fn lemma_root_unit(x: int, r: int)
    requires
        0 <= x <= FIX_ONE,
        crate::fixed::is_isqrt(x * (FIX_ONE as int), r),
    ensures
        0 <= r <= FIX_ONE,
{
    if r > FIX_ONE {
        assert(r * r > (FIX_ONE as int) * (FIX_ONE as int)) by (nonlinear_arith)
            requires
                r > FIX_ONE,
                FIX_ONE == 65536,
        ;
        assert(x * (FIX_ONE as int) <= (FIX_ONE as int) * (FIX_ONE as int)) by (nonlinear_arith)
            requires
                x <= FIX_ONE,
        ;
    }
}

} // verus!
