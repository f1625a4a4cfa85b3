//! The vocal tract: geometry sources, smoothed diameters, reflection
//! coefficients and the wave state, advanced sample by sample with a block
//! cadence for geometry updates.

use vstd::prelude::*;
use vstd::arithmetic::div_mod::lemma_div_pos_is_pos;
use crate::fixed::{
    div_pos, div_trunc, fix_div, fix_mul, fmul, iabs, lemma_fmul_bound, lemma_sdiv_abs,
    lemma_sdiv_bound, lemma_udiv_bound, lerp_fix, FIX_BOUND, FIX_ONE,
};
use crate::noise::Noise;
use crate::shape::{
    apply_constrictions, mouth_after_tongue, spec_move_towards, spec_turbulence_strength,
    slow_return, Diameter, OtherParams, Reflections, ShapeSource, Turbulence, MOUTH_CELLS,
    NOSE_CELLS, VELUM_MAX, VELUM_MIN,
};
use crate::timer::IntervalTimer;
use crate::wave::{State, Transient};

verus! {

/// Ceiling on the tract's movement speed (320 cm per second in fixed
/// point).
pub const SPEED_LIMIT: i64 = 20971520;

/// The default movement speed (15 cm per second).
pub const DEFAULT_SPEED: i64 = 983040;

/// One geometry block, as fixed-point seconds (20 ms).
pub const BLOCK_SECONDS: i64 = 1311;

/// The index of the last occluded mouth cell, or minus one when the mouth
/// is open everywhere.
pub open spec fn last_occluded(m: Seq<i64>) -> int
    decreases m.len(),
{
    if m.len() == 0 {
        -1
    } else if m.last() <= 0 {
        m.len() - 1
    } else {
        last_occluded(m.drop_last())
    }
}

/// The last-occluded marker is either minus one or a valid cell index.
pub proof fn lemma_last_occluded_range(m: Seq<i64>)
    ensures
        -1 <= last_occluded(m) < m.len(),
    decreases m.len(),
{
    if m.len() > 0 && !(m.last() <= 0) {
        lemma_last_occluded_range(m.drop_last());
    }
}

/// Whether a constriction counts as a fricative source: strictly inside
/// the tract and inside the fricative diameter band.
pub open spec fn fricative_range(c: (i64, i64)) -> bool {
    FIX_ONE <= c.0 < (MOUTH_CELLS as int - 1) * (FIX_ONE as int) && 19661 <= c.1 < 45875
}

/// The first turbulence source matching a constriction exactly, searched
/// from position `i`; minus one when none matches.
pub open spec fn find_turb_from(ts: Seq<Turbulence>, c: (i64, i64), i: int) -> int
    decreases ts.len() - i,
{
    if i < 0 || i >= ts.len() {
        -1
    } else if ts[i].index == c.0 && ts[i].diameter == c.1 {
        i
    } else {
        find_turb_from(ts, c, i + 1)
    }
}

/// A found match is an index into the list, at or after the start of the
/// search.
pub proof fn lemma_find_turb_range(ts: Seq<Turbulence>, c: (i64, i64), i: int)
    requires
        0 <= i,
    ensures
        find_turb_from(ts, c, i) == -1 || (i <= find_turb_from(ts, c, i) < ts.len()),
    decreases ts.len() - i,
{
    if i < ts.len() && !(ts[i].index == c.0 && ts[i].diameter == c.1) {
        lemma_find_turb_range(ts, c, i + 1);
    }
}

/// A matching element is found where it stands.
pub proof fn lemma_find_turb_prefix(ts: Seq<Turbulence>, c: (i64, i64), k: int)
    requires
        0 <= k < ts.len(),
        ts[k].index == c.0,
        ts[k].diameter == c.1,
    ensures
        find_turb_from(ts, c, k) == k,
{
}

/// Everything in a tract except the turbulence pool and the target mouth
/// profile agrees between two values: the frame that `update_diameter`'s
/// loops preserve.
pub open spec fn tract_frame(a: Tract, b: Tract) -> bool {
    &&& a.params == b.params
    &&& a.source == b.source
    &&& a.current_diameter == b.current_diameter
    &&& a.target_diameter == b.target_diameter
    &&& a.reflections == b.reflections
    &&& a.new_reflections == b.new_reflections
    &&& a.movement_speed == b.movement_speed
    &&& a.sample_rate == b.sample_rate
    &&& a.update_timer == b.update_timer
    &&& a.fricative_noise == b.fricative_noise
    &&& a.last_obstruction == b.last_obstruction
    &&& a.steps_per_process == b.steps_per_process
    &&& a.step200 == b.step200
    &&& a.intensity_step == b.intensity_step
    &&& a.transient_life == b.transient_life
    &&& a.transient_delay == b.transient_delay
    &&& a.state.r@ == b.state.r@
    &&& a.state.l@ == b.state.l@
    &&& a.state.r_@ == b.state.r_@
    &&& a.state.l_@ == b.state.l_@
    &&& a.state.nose_r@ == b.state.nose_r@
    &&& a.state.nose_l@ == b.state.nose_l@
    &&& a.state.nose_r_@ == b.state.nose_r_@
    &&& a.state.nose_l_@ == b.state.nose_l_@
    &&& a.state.transients@ == b.state.transients@
}

/// A fresh turbulence source for a constriction.
pub open spec fn spec_new_turb(c: (i64, i64)) -> Turbulence {
    Turbulence {
        index: c.0,
        diameter: c.1,
        strength: spec_turbulence_strength(c.1 as int) as i64,
        intensity: 0i64,
        on: true,
    }
}

/// The turbulence list after one constriction has claimed a source: a
/// matching source is switched back on, else a fresh one is added (as long
/// as the pool has room).
pub open spec fn ensure_turb(ts: Seq<Turbulence>, c: (i64, i64)) -> Seq<Turbulence> {
    if !fricative_range(c) {
        ts
    } else {
        let k = find_turb_from(ts, c, 0);
        if k >= 0 {
            ts.update(
                k,
                Turbulence {
                    on: true,
                    ..ts[k]
                },
            )
        } else if ts.len() < 64 {
            ts.push(spec_new_turb(c))
        } else {
            ts
        }
    }
}

/// The turbulence list after every constriction has claimed a source, in
/// order.
pub open spec fn ensure_turbs(ts: Seq<Turbulence>, cs: Seq<(i64, i64)>) -> Seq<Turbulence>
    decreases cs.len(),
{
    if cs.len() == 0 {
        ts
    } else {
        ensure_turb(ensure_turbs(ts, cs.drop_last()), cs.last())
    }
}

/// All turbulence sources switched off (they stay until they have faded).
pub open spec fn all_off(ts: Seq<Turbulence>) -> Seq<Turbulence> {
    Seq::new(
        ts.len(),
        |i: int|
            Turbulence {
                on: false,
                ..ts[i]
            },
    )
}

/// Exactly what `update_block` establishes between the tract before and
/// after one geometry block (its contract, as a predicate).
pub open spec fn update_block_rel(pre: Tract, post: Tract, block_time: int) -> bool {
    let amount = fmul(block_time, pre.movement_speed as int);
    &&& post.wf()
    &&& post.current_diameter.mouth@ == Seq::new(
        MOUTH_CELLS as nat,
        |i: int|
            spec_move_towards(
                pre.current_diameter.mouth@[i] as int,
                pre.target_diameter.mouth@[i] as int,
                fmul(slow_return(i), amount),
                2 * amount,
            ) as i64,
    )
    &&& post.current_diameter.nose@[0] == spec_move_towards(
        pre.current_diameter.nose@[0] as int,
        pre.target_diameter.nose@[0] as int,
        fmul(16384, amount),
        fmul(6554, amount),
    )
    &&& post.reflections == pre.new_reflections
    &&& post.new_reflections.mouth@ == Seq::new(
        (MOUTH_CELLS - 1) as nat,
        |i: int|
            crate::shape::refl_cell(
                crate::shape::area_of(post.current_diameter.mouth@[i] as int),
                crate::shape::area_of(post.current_diameter.mouth@[i + 1] as int),
            ) as i64,
    )
    &&& post.new_reflections.nose@ == Seq::new(
        (NOSE_CELLS - 1) as nat,
        |i: int|
            crate::shape::refl_cell(
                crate::shape::area_of(post.current_diameter.nose@[i] as int),
                crate::shape::area_of(post.current_diameter.nose@[i + 1] as int),
            ) as i64,
    )
    &&& post.new_reflections.junction_left == crate::shape::junction_coeff(
        crate::shape::area_of(post.current_diameter.mouth@[17] as int),
        crate::shape::junction_total(&post.current_diameter),
    )
    &&& post.new_reflections.junction_right == crate::shape::junction_coeff(
        crate::shape::area_of(post.current_diameter.mouth@[18] as int),
        crate::shape::junction_total(&post.current_diameter),
    )
    &&& post.new_reflections.junction_nose == crate::shape::junction_coeff(
        crate::shape::area_of(post.current_diameter.nose@[0] as int),
        crate::shape::junction_total(&post.current_diameter),
    )
    &&& post.last_obstruction == (if last_occluded(post.current_diameter.mouth@) == -1 {
        usize::MAX as int
    } else {
        last_occluded(post.current_diameter.mouth@)
    })
    &&& ({
        let opened = pre.last_obstruction != usize::MAX && last_occluded(
            post.current_diameter.mouth@,
        ) == -1;
        let shut = fmul(
            post.current_diameter.nose@[0] as int,
            post.current_diameter.nose@[0] as int,
        ) < 3277;
        if opened && shut && pre.state.transients@.len() < 64 {
            post.state.transients@ == pre.state.transients@.push(
                Transient {
                    position: pre.last_obstruction,
                    delay: pre.transient_delay,
                    time_alive: 0i64,
                    strength: 19661i64,
                },
            )
        } else {
            post.state.transients@ == pre.state.transients@
        }
    })
    &&& post.state.r@ == pre.state.r@
    &&& post.state.l@ == pre.state.l@
    &&& post.state.nose_r@ == pre.state.nose_r@
    &&& post.state.nose_l@ == pre.state.nose_l@
    &&& post.state.turbulences@ == pre.state.turbulences@
    &&& post.source == pre.source
    &&& post.target_diameter == pre.target_diameter
    &&& post.update_timer == pre.update_timer
    &&& post.movement_speed == pre.movement_speed
    &&& post.steps_per_process == pre.steps_per_process
    &&& post.params == pre.params
    &&& post.fricative_noise == pre.fricative_noise
    &&& post.sample_rate == pre.sample_rate
    &&& post.step200 == pre.step200
    &&& post.intensity_step == pre.intensity_step
    &&& post.transient_life == pre.transient_life
    &&& post.transient_delay == pre.transient_delay
}

/// The geometry phase of one sample: the block update exactly when the
/// block timer has fired, else no change at all.
pub open spec fn block_phase_rel(pre: Tract, post: Tract) -> bool {
    if pre.update_timer.overflowed {
        update_block_rel(pre, post, BLOCK_SECONDS as int)
    } else {
        post == pre
    }
}

/// `k` solver steps with the same inputs: the observable wave state folds
/// through `run_step_model` while the lip and nostril outputs accumulate.
pub open spec fn run_steps_model(
    m: crate::wave::WaveModel,
    refl: Reflections,
    newr: Reflections,
    gr: int,
    lip: int,
    fade: int,
    lambda: int,
    glottal: int,
    tnoise: int,
    step200: int,
    istep: int,
    life: int,
    k: nat,
) -> (crate::wave::WaveModel, int)
    decreases k,
{
    if k == 0 {
        (m, 0)
    } else {
        let prev = run_steps_model(
            m,
            refl,
            newr,
            gr,
            lip,
            fade,
            lambda,
            glottal,
            tnoise,
            step200,
            istep,
            life,
            (k - 1) as nat,
        );
        let st = crate::wave::run_step_model(
            prev.0,
            refl,
            newr,
            gr,
            lip,
            fade,
            lambda,
            glottal,
            tnoise,
            step200,
            istep,
            life,
        );
        (st.0, prev.1 + st.1 + st.2)
    }
}

/// Exactly what `Tract::process` establishes: the block phase runs when
/// its timer has fired, the timer steps one sample, the fricative stream
/// advances, the observable wave state folds through the solver steps on
/// the same inputs, and the output is the truncated average of the summed
/// step outputs.
pub open spec fn tract_process_rel(pre: Tract, post: Tract, intensity: int, x: int, out: int)
    -> bool {
    &&& post.wf()
    &&& -131072 <= out <= 131072
    &&& post.source == pre.source
    &&& post.target_diameter == pre.target_diameter
    &&& post.movement_speed == pre.movement_speed
    &&& post.steps_per_process == pre.steps_per_process
    &&& post.update_timer.interval == pre.update_timer.interval
    &&& post.update_timer.time == (pre.update_timer.time + 1) % (pre.update_timer.interval as int)
    &&& post.update_timer.overflowed == (pre.update_timer.time + 1 >= pre.update_timer.interval)
    &&& post.fricative_noise.rand == crate::noise::lcg_next(pre.fricative_noise.rand as int)
    &&& post.fricative_noise.b0 == pre.fricative_noise.b0
    &&& post.fricative_noise.a1 == pre.fricative_noise.a1
    &&& post.fricative_noise.a2 == pre.fricative_noise.a2
    &&& exists|mid: Tract|
        #[trigger] block_phase_rel(pre, mid) && ({
            let lambda = crate::fixed::fdiv(
                mid.update_timer.time as int,
                mid.update_timer.interval as int,
            );
            let ns = crate::noise::spec_noise_step(mid.fricative_noise);
            let fold = run_steps_model(
                mid.state.model(),
                mid.reflections,
                mid.new_reflections,
                mid.params.glottal_reflection as int,
                mid.params.lip_reflection as int,
                mid.params.fade as int,
                lambda,
                x,
                fmul(ns.1, intensity),
                mid.step200 as int,
                mid.intensity_step as int,
                mid.transient_life as int,
                pre.steps_per_process as nat,
            );
            &&& post.state.model() == fold.0
            &&& out == crate::fixed::sdiv(fold.1, pre.steps_per_process as int)
            &&& post.fricative_noise == ns.0
            &&& post.reflections == mid.reflections
            &&& post.new_reflections == mid.new_reflections
            &&& post.current_diameter == mid.current_diameter
            &&& post.last_obstruction == mid.last_obstruction
        })
}

pub struct Tract {
    pub params: OtherParams,
    pub source: ShapeSource,
    pub current_diameter: Diameter,
    pub target_diameter: Diameter,
    pub reflections: Reflections,
    pub new_reflections: Reflections,
    pub state: State,
    pub movement_speed: i64,
    pub sample_rate: i64,
    pub update_timer: IntervalTimer,
    pub fricative_noise: Noise,
    pub last_obstruction: usize,
    pub steps_per_process: usize,
    pub step200: i64,
    pub intensity_step: i64,
    pub transient_life: i64,
    pub transient_delay: i64,
}

impl Tract {
    pub open spec fn wf(self) -> bool {
        &&& self.params.wf()
        &&& self.source.wf()
        &&& self.current_diameter.wf()
        &&& self.target_diameter.wf()
        &&& self.reflections.wf()
        &&& self.new_reflections.wf()
        &&& self.state.wf()
        &&& 0 <= self.movement_speed <= SPEED_LIMIT
        &&& 131072000 <= self.sample_rate <= FIX_BOUND
        &&& self.update_timer.wf()
        &&& self.fricative_noise.wf()
        &&& self.last_obstruction == usize::MAX || self.last_obstruction < MOUTH_CELLS
        &&& 1 <= self.steps_per_process <= 8
        &&& 0 <= self.step200 <= FIX_ONE
        &&& 0 <= self.intensity_step <= FIX_ONE
        &&& 0 <= self.transient_life <= 0x100000
        &&& 0 <= self.transient_delay <= 0x100000
    }

    /// A tract at rest for the given inner sample rate (fixed point, hertz)
    /// and number of solver steps per sample.
    #[verifier::rlimit(60)]
    pub fn new(steps_per_process: usize, sample_rate: i64, seed: u32) -> (r: Tract)
        requires
            1 <= steps_per_process <= 8,
            131072000 <= sample_rate,
            sample_rate * steps_per_process <= FIX_BOUND,
            seed < 0xFFFFFFFF,
        ensures
            r.wf(),
            r.source.tongue.0 == crate::shape::DEFAULT_TONGUE_INDEX,
            r.source.tongue.1 == crate::shape::DEFAULT_TONGUE_DIAMETER,
            r.source.other_constrictions@.len() == 0,
            r.steps_per_process == steps_per_process,
            r.sample_rate == sample_rate,
            r.movement_speed == DEFAULT_SPEED,
            r.update_timer.overflowed,
            r.state.transients@.len() == 0,
            r.state.turbulences@.len() == 0,
            r.current_diameter.mouth@ == mouth_after_tongue(
                crate::shape::DEFAULT_TONGUE_INDEX as int,
                crate::shape::DEFAULT_TONGUE_DIAMETER as int,
            ),
            r.target_diameter.mouth@ == r.current_diameter.mouth@,
            r.target_diameter.nose@ == r.current_diameter.nose@,
            r.current_diameter.nose@[0] == VELUM_MIN,
    {
        proof {
            assert((sample_rate as int) * (steps_per_process as int) >= 131072000)
                by (nonlinear_arith)
                requires
                    sample_rate >= 131072000,
                    steps_per_process >= 1,
            ;
            assert(sample_rate as int <= 0x400000000) by (nonlinear_arith)
                requires
                    (sample_rate as int) * (steps_per_process as int) <= 0x400000000,
                    steps_per_process >= 1,
                    sample_rate >= 0,
            ;
        }
        let rate_total: i64 = sample_rate * (steps_per_process as i64);
        let source: ShapeSource = ShapeSource::new(MOUTH_CELLS, NOSE_CELLS);
        let mut current: Diameter = Diameter::new(&source);
        let mut target: Diameter = Diameter::new(&source);
        source.compute_diameter(&mut current);
        source.compute_diameter(&mut target);
        let mut reflections: Reflections = Reflections::new(MOUTH_CELLS, NOSE_CELLS);
        let mut new_reflections: Reflections = Reflections::new(MOUTH_CELLS, NOSE_CELLS);
        current.compute_reflections(&mut reflections);
        current.compute_reflections(&mut new_reflections);
        proof {
            assert(apply_constrictions(
                mouth_after_tongue(
                    crate::shape::DEFAULT_TONGUE_INDEX as int,
                    crate::shape::DEFAULT_TONGUE_DIAMETER as int,
                ),
                source.other_constrictions@,
            ) == mouth_after_tongue(
                crate::shape::DEFAULT_TONGUE_INDEX as int,
                crate::shape::DEFAULT_TONGUE_DIAMETER as int,
            ));
        }
        let interval: i64 = div_pos(sample_rate, 3276800);
        proof {
            assert(3276800int * 65536int == 214748364800int) by (nonlinear_arith);
            lemma_udiv_bound(sample_rate as int, 3276800, 65536);
            lemma_div_pos_is_pos(sample_rate as int, 3276800);
            assert(40int * 3276800int == 131072000int) by (nonlinear_arith);
            vstd::arithmetic::div_mod::lemma_fundamental_div_mod_converse(
                131072000,
                3276800,
                40,
                0,
            );
            vstd::arithmetic::div_mod::lemma_div_is_ordered(
                131072000,
                sample_rate as int,
                3276800,
            );
        }
        let step200: i64 = fix_div(13107200, rate_total);
        proof {
            lemma_sdiv_abs(13107200 * (FIX_ONE as int), rate_total as int);
            lemma_udiv_bound(13107200 * (FIX_ONE as int), rate_total as int, FIX_ONE as int);
            assert(13107200 * (FIX_ONE as int) <= (rate_total as int) * (FIX_ONE as int))
                by (nonlinear_arith)
                requires
                    13107200 <= rate_total,
                    FIX_ONE == 65536,
            ;
        }
        let intensity_step: i64 = fix_div(655360, rate_total);
        proof {
            lemma_sdiv_abs(655360 * (FIX_ONE as int), rate_total as int);
            lemma_udiv_bound(655360 * (FIX_ONE as int), rate_total as int, FIX_ONE as int);
            assert(655360 * (FIX_ONE as int) <= (rate_total as int) * (FIX_ONE as int))
                by (nonlinear_arith)
                requires
                    655360 <= rate_total,
                    FIX_ONE == 65536,
            ;
        }
        let transient_life: i64 = div_pos(rate_total, 327680);
        let transient_delay: i64 = div_pos(rate_total, 3276800);
        proof {
            assert(327680int * 0x100000int == 343597383680int) by (nonlinear_arith);
            assert(3276800int * 0x100000int == 3435973836800int) by (nonlinear_arith);
            lemma_udiv_bound(rate_total as int, 327680, 0x100000);
            lemma_udiv_bound(rate_total as int, 3276800, 0x100000);
            lemma_div_pos_is_pos(rate_total as int, 327680);
            lemma_div_pos_is_pos(rate_total as int, 3276800);
        }
        Tract {
            params: OtherParams::new(17, rate_total),
            source,
            current_diameter: current,
            target_diameter: target,
            reflections,
            new_reflections,
            state: State::new(MOUTH_CELLS, NOSE_CELLS),
            movement_speed: DEFAULT_SPEED,
            sample_rate,
            update_timer: IntervalTimer::new_overflowed(interval),
            fricative_noise: Noise::new(seed + 1, sample_rate, 65536000),
            last_obstruction: usize::MAX,
            steps_per_process,
            step200,
            intensity_step,
            transient_life,
            transient_delay,
        }
    }

    /// Aim the velum at a new opening; the geometry chases it at the next
    /// blocks.
    pub fn set_velum_target(&mut self, velum_target: i64)
        requires
            old(self).wf(),
            VELUM_MIN <= velum_target <= VELUM_MAX,
        ensures
            final(self).wf(),
            final(self).target_diameter.nose@ == old(self).target_diameter.nose@.update(
                0,
                velum_target,
            ),
            final(self).target_diameter.mouth@ == old(self).target_diameter.mouth@,
            final(self).current_diameter == old(self).current_diameter,
            final(self).source == old(self).source,
            final(self).state == old(self).state,
            final(self).reflections == old(self).reflections,
            final(self).new_reflections == old(self).new_reflections,
            final(self).update_timer == old(self).update_timer,
            final(self).movement_speed == old(self).movement_speed,
    {
        self.target_diameter.nose.set(0, velum_target);
    }

    /// One geometry block: chase the target diameters, detect a released
    /// occlusion (which seeds a plosive transient while the velum is shut),
    /// and swap in freshly computed reflection coefficients.
    pub fn update_block(&mut self, block_time: i64)
        requires
            old(self).wf(),
            0 <= block_time <= 2048,
        ensures
            final(self).wf(),
            ({
                let amount = fmul(block_time as int, old(self).movement_speed as int);
                &&& final(self).current_diameter.mouth@ == Seq::new(
                    MOUTH_CELLS as nat,
                    |i: int|
                        spec_move_towards(
                            old(self).current_diameter.mouth@[i] as int,
                            old(self).target_diameter.mouth@[i] as int,
                            fmul(slow_return(i), amount),
                            2 * amount,
                        ) as i64,
                )
                &&& final(self).current_diameter.nose@[0] == spec_move_towards(
                    old(self).current_diameter.nose@[0] as int,
                    old(self).target_diameter.nose@[0] as int,
                    fmul(16384, amount),
                    fmul(6554, amount),
                )
            }),
            final(self).reflections == old(self).new_reflections,
            final(self).new_reflections.mouth@ == Seq::new(
                (MOUTH_CELLS - 1) as nat,
                |i: int|
                    crate::shape::refl_cell(
                        crate::shape::area_of(final(self).current_diameter.mouth@[i] as int),
                        crate::shape::area_of(final(self).current_diameter.mouth@[i + 1] as int),
                    ) as i64,
            ),
            final(self).new_reflections.nose@ == Seq::new(
                (NOSE_CELLS - 1) as nat,
                |i: int|
                    crate::shape::refl_cell(
                        crate::shape::area_of(final(self).current_diameter.nose@[i] as int),
                        crate::shape::area_of(final(self).current_diameter.nose@[i + 1] as int),
                    ) as i64,
            ),
            final(self).new_reflections.junction_left == crate::shape::junction_coeff(
                crate::shape::area_of(final(self).current_diameter.mouth@[17] as int),
                crate::shape::junction_total(&final(self).current_diameter),
            ),
            final(self).new_reflections.junction_right == crate::shape::junction_coeff(
                crate::shape::area_of(final(self).current_diameter.mouth@[18] as int),
                crate::shape::junction_total(&final(self).current_diameter),
            ),
            final(self).new_reflections.junction_nose == crate::shape::junction_coeff(
                crate::shape::area_of(final(self).current_diameter.nose@[0] as int),
                crate::shape::junction_total(&final(self).current_diameter),
            ),
            final(self).last_obstruction == (if last_occluded(final(self).current_diameter.mouth@)
                == -1 {
                usize::MAX as int
            } else {
                last_occluded(final(self).current_diameter.mouth@)
            }),
            ({
                let opened = old(self).last_obstruction != usize::MAX && last_occluded(
                    final(self).current_diameter.mouth@,
                ) == -1;
                let shut = fmul(
                    final(self).current_diameter.nose@[0] as int,
                    final(self).current_diameter.nose@[0] as int,
                ) < 3277;
                if opened && shut && old(self).state.transients@.len() < 64 {
                    final(self).state.transients@ == old(self).state.transients@.push(
                        Transient {
                            position: old(self).last_obstruction,
                            delay: old(self).transient_delay,
                            time_alive: 0i64,
                            strength: 19661i64,
                        },
                    )
                } else {
                    final(self).state.transients@ == old(self).state.transients@
                }
            }),
            final(self).state.r@ == old(self).state.r@,
            final(self).state.l@ == old(self).state.l@,
            final(self).state.nose_r@ == old(self).state.nose_r@,
            final(self).state.nose_l@ == old(self).state.nose_l@,
            final(self).state.turbulences@ == old(self).state.turbulences@,
            final(self).source == old(self).source,
            final(self).target_diameter == old(self).target_diameter,
            final(self).update_timer == old(self).update_timer,
            final(self).movement_speed == old(self).movement_speed,
            final(self).steps_per_process == old(self).steps_per_process,
            final(self).params == old(self).params,
            final(self).fricative_noise == old(self).fricative_noise,
            final(self).sample_rate == old(self).sample_rate,
            final(self).step200 == old(self).step200,
            final(self).intensity_step == old(self).intensity_step,
            final(self).transient_life == old(self).transient_life,
            final(self).transient_delay == old(self).transient_delay,
    {
        proof {
            lemma_fmul_bound(block_time as int, self.movement_speed as int, 2048, SPEED_LIMIT as int);
            lemma_sdiv_abs((block_time as int) * (self.movement_speed as int), FIX_ONE as int);
            vstd::arithmetic::div_mod::lemma_div_pos_is_pos(
                (block_time as int) * (self.movement_speed as int),
                FIX_ONE as int,
            );
            assert((block_time as int) * (self.movement_speed as int) >= 0) by (nonlinear_arith)
                requires
                    block_time >= 0,
                    self.movement_speed >= 0,
            ;
        }
        let amount: i64 = fix_mul(block_time, self.movement_speed);
        let target: &Diameter = &self.target_diameter;
        self.current_diameter.reshape(target, amount);
        let mut new_last: usize = usize::MAX;
        let mut i: usize = 0;
        proof {
            assert(last_occluded(self.current_diameter.mouth@.subrange(0, 0)) == -1);
        }
        while i < MOUTH_CELLS
            invariant
                i <= MOUTH_CELLS,
                self.current_diameter.mouth@.len() == MOUTH_CELLS,
                new_last == usize::MAX as int || new_last < i,
                ({
                    let lo = last_occluded(self.current_diameter.mouth@.subrange(0, i as int));
                    new_last as int == if lo == -1 {
                        usize::MAX as int
                    } else {
                        lo
                    }
                }),
            decreases MOUTH_CELLS - i,
        {
            let ghost pre: Seq<i64> = self.current_diameter.mouth@.subrange(0, i as int);
            let ghost post: Seq<i64> = self.current_diameter.mouth@.subrange(0, i as int + 1);
            proof {
                assert(post.drop_last() =~= pre);
                assert(post.last() == self.current_diameter.mouth@[i as int]);
            }
            if self.current_diameter.mouth[i] <= 0 {
                new_last = i;
            }
            i = i + 1;
        }
        proof {
            assert(self.current_diameter.mouth@.subrange(0, MOUTH_CELLS as int)
                =~= self.current_diameter.mouth@);
        }
        let n0: i64 = self.current_diameter.nose[0];
        proof {
            lemma_fmul_bound(n0 as int, n0 as int, VELUM_MAX as int, VELUM_MAX as int);
            lemma_sdiv_abs((n0 as int) * (n0 as int), FIX_ONE as int);
            vstd::arithmetic::div_mod::lemma_div_pos_is_pos(
                (n0 as int) * (n0 as int),
                FIX_ONE as int,
            );
            assert((n0 as int) * (n0 as int) >= 0) by (nonlinear_arith)
                requires
                    n0 >= 0,
            ;
        }
        let velum_shut: bool = fix_mul(n0, n0) < 3277;
        proof {
            let lo: int = last_occluded(self.current_diameter.mouth@);
            assert(-1 <= lo < MOUTH_CELLS) by {
                lemma_last_occluded_range(self.current_diameter.mouth@);
            }
            assert((new_last == usize::MAX) <==> (lo == -1));
        }
        if self.last_obstruction != usize::MAX && new_last == usize::MAX && velum_shut
            && self.state.transients.len() < 64 {
            self.state.transients.push(
                Transient {
                    position: self.last_obstruction,
                    delay: self.transient_delay,
                    time_alive: 0,
                    strength: 19661,
                },
            );
        }
        self.last_obstruction = new_last;
        core::mem::swap(&mut self.reflections, &mut self.new_reflections);
        let current: &Diameter = &self.current_diameter;
        current.compute_reflections(&mut self.new_reflections);
    }

    /// Recompute the target mouth profile from the sources, and refresh the
    /// turbulence pool: every source is switched off, then each fricative
    /// constriction reclaims or adds its source.
    pub fn update_diameter(&mut self)
        requires
            old(self).wf(),
        ensures
            final(self).wf(),
            final(self).target_diameter.mouth@ == apply_constrictions(
                mouth_after_tongue(
                    old(self).source.tongue.0 as int,
                    old(self).source.tongue.1 as int,
                ),
                old(self).source.other_constrictions@,
            ),
            final(self).target_diameter.nose@ == old(self).target_diameter.nose@,
            final(self).state.turbulences@ == ensure_turbs(
                all_off(old(self).state.turbulences@),
                old(self).source.other_constrictions@,
            ),
            final(self).state.r@ == old(self).state.r@,
            final(self).state.l@ == old(self).state.l@,
            final(self).state.nose_r@ == old(self).state.nose_r@,
            final(self).state.nose_l@ == old(self).state.nose_l@,
            final(self).state.transients@ == old(self).state.transients@,
            final(self).source == old(self).source,
            final(self).current_diameter == old(self).current_diameter,
            final(self).reflections == old(self).reflections,
            final(self).new_reflections == old(self).new_reflections,
            final(self).update_timer == old(self).update_timer,
            final(self).movement_speed == old(self).movement_speed,
    {
        let source: &ShapeSource = &self.source;
        source.compute_diameter(&mut self.target_diameter);
        let ghost snap: Tract = *self;
        let mut i: usize = 0;
        let ghost ts0: Seq<Turbulence> = self.state.turbulences@;
        while i < self.state.turbulences.len()
            invariant
                i <= ts0.len(),
                ts0.len() <= 64,
                ts0 == snap.state.turbulences@,
                self.state.turbulences@.len() == ts0.len(),
                tract_frame(*self, snap),
                forall|j: int| 0 <= j < i ==> #[trigger] self.state.turbulences@[j] == all_off(
                    ts0,
                )[j],
                forall|j: int| i <= j < ts0.len() ==> #[trigger] self.state.turbulences@[j]
                    == ts0[j],
                forall|j: int|
                    0 <= j < ts0.len() ==> (#[trigger] ts0[j]).wf() && FIX_ONE <= ts0[j].index
                        <= (MOUTH_CELLS as int - 1) * (FIX_ONE as int),
            decreases ts0.len() - i,
        {
            let t: Turbulence = self.state.turbulences[i];
            self.state.turbulences.set(
                i,
                Turbulence {
                    on: false,
                    ..t
                },
            );
            i = i + 1;
        }
        proof {
            assert(self.state.turbulences@ =~= all_off(ts0));
        }
        let ghost cs: Seq<(i64, i64)> = self.source.other_constrictions@;
        let mut c: usize = 0;
        proof {
            assert(cs.subrange(0, 0) =~= Seq::<(i64, i64)>::empty());
        }
        while c < self.source.other_constrictions.len()
            invariant
                c <= cs.len(),
                cs == self.source.other_constrictions@,
                cs.len() <= 64,
                ts0 == snap.state.turbulences@,
                tract_frame(*self, snap),
                self.source.wf(),
                self.state.turbulences@ == ensure_turbs(all_off(ts0), cs.subrange(0, c as int)),
                self.state.turbulences@.len() <= 64,
                forall|j: int|
                    0 <= j < self.state.turbulences@.len() ==> (
                    #[trigger] self.state.turbulences@[j]).wf() && FIX_ONE
                        <= self.state.turbulences@[j].index <= (MOUTH_CELLS as int - 1) * (
                    FIX_ONE as int),
            decreases cs.len() - c,
        {
            let ghost tspre: Seq<Turbulence> = self.state.turbulences@;
            let (cidx, cdia): (i64, i64) = self.source.other_constrictions[c];
            if FIX_ONE <= cidx && cidx < (MOUTH_CELLS as i64 - 1) * FIX_ONE && 19661 <= cdia
                && cdia < 45875 {
                let mut k: usize = 0;
                let mut found_at: usize = usize::MAX;
                proof {
                    lemma_find_turb_range(tspre, (cidx, cdia), 0);
                }
                while k < self.state.turbulences.len() && found_at == usize::MAX
                    invariant
                        k <= tspre.len(),
                        tspre.len() <= 64,
                        self.state.turbulences@ == tspre,
                        tract_frame(*self, snap),
                        found_at == usize::MAX as int || (found_at < tspre.len()
                            && find_turb_from(tspre, (cidx, cdia), 0) == found_at as int),
                        found_at == usize::MAX as int ==> find_turb_from(tspre, (cidx, cdia), 0)
                            == find_turb_from(tspre, (cidx, cdia), k as int),
                    decreases tspre.len() - k,
                {
                    let t: Turbulence = self.state.turbulences[k];
                    if t.index == cidx && t.diameter == cdia {
                        proof {
                            lemma_find_turb_prefix(tspre, (cidx, cdia), k as int);
                        }
                        found_at = k;
                    }
                    k = k + 1;
                }
                if found_at != usize::MAX {
                    let t: Turbulence = self.state.turbulences[found_at];
                    self.state.turbulences.set(
                        found_at,
                        Turbulence {
                            on: true,
                            ..t
                        },
                    );
                    proof {
                        assert(self.state.turbulences@ =~= ensure_turb(tspre, cs[c as int]));
                    }
                } else if self.state.turbulences.len() < 64 {
                    let fresh: Turbulence = Turbulence::new(cidx, cdia);
                    self.state.turbulences.push(fresh);
                    proof {
                        assert(self.state.turbulences@ =~= ensure_turb(tspre, cs[c as int]));
                    }
                } else {
                    proof {
                        assert(self.state.turbulences@ =~= ensure_turb(tspre, cs[c as int]));
                    }
                }
            } else {
                proof {
                    assert(!fricative_range(cs[c as int]));
                    assert(self.state.turbulences@ =~= ensure_turb(tspre, cs[c as int]));
                }
            }
            proof {
                assert(cs.subrange(0, c as int + 1).drop_last() =~= cs.subrange(0, c as int));
                assert(cs.subrange(0, c as int + 1).last() == cs[c as int]);
            }
            c = c + 1;
        }
        proof {
            assert(cs.subrange(0, cs.len() as int) =~= cs);
        }
    }

    /// Snap the current diameters to their targets at once, skipping the
    /// smoothing (used by the force-diameter routine event).
    pub fn snap_to_target(&mut self)
        requires
            old(self).wf(),
        ensures
            final(self).wf(),
            final(self).current_diameter.mouth@ == old(self).target_diameter.mouth@,
            final(self).current_diameter.nose@ == old(self).target_diameter.nose@,
            final(self).target_diameter == old(self).target_diameter,
            final(self).source == old(self).source,
            final(self).state == old(self).state,
            final(self).reflections == old(self).reflections,
            final(self).new_reflections == old(self).new_reflections,
            final(self).update_timer == old(self).update_timer,
            final(self).movement_speed == old(self).movement_speed,
            final(self).steps_per_process == old(self).steps_per_process,
    {
        let mut mouth: Vec<i64> = Vec::new();
        let mut i: usize = 0;
        while i < MOUTH_CELLS
            invariant
                i <= MOUTH_CELLS,
                self.target_diameter.mouth@.len() == MOUTH_CELLS,
                mouth@.len() == i,
                forall|j: int| 0 <= j < i ==> #[trigger] mouth@[j]
                    == self.target_diameter.mouth@[j],
            decreases MOUTH_CELLS - i,
        {
            mouth.push(self.target_diameter.mouth[i]);
            i = i + 1;
        }
        let mut nose: Vec<i64> = Vec::new();
        let mut i: usize = 0;
        while i < NOSE_CELLS
            invariant
                i <= NOSE_CELLS,
                self.target_diameter.nose@.len() == NOSE_CELLS,
                nose@.len() == i,
                forall|j: int| 0 <= j < i ==> #[trigger] nose@[j]
                    == self.target_diameter.nose@[j],
            decreases NOSE_CELLS - i,
        {
            nose.push(self.target_diameter.nose[i]);
            i = i + 1;
        }
        proof {
            assert(mouth@ =~= self.target_diameter.mouth@);
            assert(nose@ =~= self.target_diameter.nose@);
        }
        self.current_diameter.mouth = mouth;
        self.current_diameter.nose = nose;
    }

    /// One solver step: transients and turbulence act, then the mouth pass
    /// and the nose pass. Both outputs lie in `[-1, 1]`: the lip output is
    /// the last right-going mouth sample, the nostril output the last
    /// right-going nose sample, both post-clamp.
    pub fn run_step(&mut self, glottal_output: i64, turbulence_noise: i64, lambda: i64) -> (out: (
        i64,
        i64,
    ))
        requires
            old(self).wf(),
            -524288 <= glottal_output <= 524288,
            -524288 <= turbulence_noise <= 524288,
            0 <= lambda <= FIX_ONE,
        ensures
            final(self).wf(),
            -FIX_ONE <= out.0 <= FIX_ONE,
            -FIX_ONE <= out.1 <= FIX_ONE,
            out.0 == final(self).state.r@[MOUTH_CELLS - 1],
            out.1 == final(self).state.nose_r@[NOSE_CELLS - 1],
            ({
                let step = crate::wave::run_step_model(
                    old(self).state.model(),
                    old(self).reflections,
                    old(self).new_reflections,
                    old(self).params.glottal_reflection as int,
                    old(self).params.lip_reflection as int,
                    old(self).params.fade as int,
                    lambda as int,
                    glottal_output as int,
                    turbulence_noise as int,
                    old(self).step200 as int,
                    old(self).intensity_step as int,
                    old(self).transient_life as int,
                );
                &&& final(self).state.model() == step.0
                &&& out.0 == step.1
                &&& out.1 == step.2
            }),
            forall|i: int| 0 <= i < MOUTH_CELLS ==> -FIX_ONE <= #[trigger] final(self).state.r@[i]
                <= FIX_ONE,
            forall|i: int| 0 <= i < MOUTH_CELLS ==> -FIX_ONE <= #[trigger] final(self).state.l@[i]
                <= FIX_ONE,
            forall|i: int|
                0 <= i < NOSE_CELLS ==> -FIX_ONE <= #[trigger] final(self).state.nose_r@[i]
                    <= FIX_ONE,
            forall|i: int|
                0 <= i < NOSE_CELLS ==> -FIX_ONE <= #[trigger] final(self).state.nose_l@[i]
                    <= FIX_ONE,
            final(self).source == old(self).source,
            final(self).current_diameter == old(self).current_diameter,
            final(self).target_diameter == old(self).target_diameter,
            final(self).reflections == old(self).reflections,
            final(self).new_reflections == old(self).new_reflections,
            final(self).params == old(self).params,
            final(self).update_timer == old(self).update_timer,
            final(self).fricative_noise == old(self).fricative_noise,
            final(self).movement_speed == old(self).movement_speed,
            final(self).steps_per_process == old(self).steps_per_process,
            final(self).last_obstruction == old(self).last_obstruction,
            final(self).sample_rate == old(self).sample_rate,
            final(self).step200 == old(self).step200,
            final(self).intensity_step == old(self).intensity_step,
            final(self).transient_life == old(self).transient_life,
            final(self).transient_delay == old(self).transient_delay,
    {
        let step200: i64 = self.step200;
        let life: i64 = self.transient_life;
        let istep: i64 = self.intensity_step;
        self.state.process_transients(step200, life);
        self.state.process_turbulence_noise(istep, turbulence_noise);
        let ghost mid: State = self.state;
        let lip: i64 = self.state.process_mouth(
            &self.params,
            &self.reflections,
            &self.new_reflections,
            lambda,
            glottal_output,
        );
        let ghost post_mouth: State = self.state;
        let first: i64 = lerp_fix(self.reflections.nose[0], self.new_reflections.nose[0], lambda);
        let nose_out: i64 = self.state.process_nose(&self.params, &self.new_reflections, first);
        proof {
            reveal(crate::wave::run_step_model);
            let m = old(self).state.model();
            let pt = crate::wave::transients_fold(m.r, m.l, m.transients, step200 as int);
            let tb = crate::wave::turbulences_fold(
                pt.0,
                pt.1,
                m.turbulences,
                istep as int,
                turbulence_noise as int,
            );
            let step = crate::wave::run_step_model(
                old(self).state.model(),
                old(self).reflections,
                old(self).new_reflections,
                old(self).params.glottal_reflection as int,
                old(self).params.lip_reflection as int,
                old(self).params.fade as int,
                lambda as int,
                glottal_output as int,
                turbulence_noise as int,
                old(self).step200 as int,
                old(self).intensity_step as int,
                old(self).transient_life as int,
            );
            assert(mid.r@ == tb.0);
            assert(mid.l@ == tb.1);
            assert(mid.nose_l@ == m.nose_l);
            assert(mid.nose_r@ == m.nose_r);
            assert forall|i: int| 0 <= i < MOUTH_CELLS implies self.state.r@[i] == step.0.r[i] by {
                assert(self.state.r@[i] == crate::wave::faded(
                    (crate::wave::mouth_r_scratch(
                        mid.r@,
                        mid.l@,
                        mid.nose_l@[0] as int,
                        old(self).reflections,
                        old(self).new_reflections,
                        lambda as int,
                        glottal_output as int,
                        old(self).params.glottal_reflection as int,
                        i,
                    ) as i64) as int,
                    old(self).params.fade as int,
                ) as i64);
            }
            assert forall|i: int| 0 <= i < MOUTH_CELLS implies self.state.l@[i] == step.0.l[i] by {
                assert(self.state.l@[i] == crate::wave::faded(
                    (crate::wave::mouth_l_scratch(
                        mid.r@,
                        mid.l@,
                        mid.nose_l@[0] as int,
                        old(self).reflections,
                        old(self).new_reflections,
                        lambda as int,
                        old(self).params.lip_reflection as int,
                        i,
                    ) as i64) as int,
                    old(self).params.fade as int,
                ) as i64);
            }
            assert(post_mouth.nose_r_@[0] == crate::wave::junction_nose_scratch(
                tb.0,
                tb.1,
                m.nose_l[0] as int,
                old(self).reflections,
                old(self).new_reflections,
                lambda as int,
            ) as i64);
            assert forall|i: int|
                0 <= i < NOSE_CELLS implies self.state.nose_r@[i] == step.0.nose_r[i] by {
                assert(self.state.nose_r@[i] == crate::wave::faded(
                    (crate::wave::nose_r_scratch(
                        post_mouth.nose_r@,
                        post_mouth.nose_l@,
                        post_mouth.nose_r_@[0] as int,
                        old(self).new_reflections.nose@,
                        first as int,
                        i,
                    ) as i64) as int,
                    old(self).params.fade as int,
                ) as i64);
            }
            assert forall|i: int|
                0 <= i < NOSE_CELLS implies self.state.nose_l@[i] == step.0.nose_l[i] by {
                assert(self.state.nose_l@[i] == crate::wave::faded(
                    (crate::wave::nose_l_scratch(
                        post_mouth.nose_r@,
                        post_mouth.nose_l@,
                        old(self).new_reflections.nose@,
                        first as int,
                        old(self).params.lip_reflection as int,
                        i,
                    ) as i64) as int,
                    old(self).params.fade as int,
                ) as i64);
            }
            assert(self.state.r@ =~= step.0.r);
            assert(self.state.l@ =~= step.0.l);
            assert(self.state.nose_r@ =~= step.0.nose_r);
            assert(self.state.nose_l@ =~= step.0.nose_l);
            assert(self.state.model() == step.0);
        }
        (lip, nose_out)
    }

    /// One inner sample: run the block update exactly when its timer
    /// fires, then step the solver `steps_per_process` times on the same
    /// inputs and average the summed lip-and-nose outputs. The whole sample
    /// is pinned down: there is a (unique) post-block state from which the
    /// observable wave state folds through `run_step_model` and the output
    /// is the truncated average of the accumulated step outputs.
    #[verifier::rlimit(100)]
    pub fn process(&mut self, intensity: i64, x: i64) -> (out: i64)
        requires
            old(self).wf(),
            0 <= intensity <= FIX_ONE,
            -524288 <= x <= 524288,
        ensures
            tract_process_rel(*old(self), *final(self), intensity as int, x as int, out as int),
            final(self).wf(),
            -131072 <= out <= 131072,
    {
        if self.update_timer.overflowed() {
            self.update_block(BLOCK_SECONDS);
        }
        let ghost mid: Tract = *self;
        proof {
            assert(block_phase_rel(*old(self), mid));
        }
        let lambda: i64 = self.update_timer.progress();
        self.update_timer.update(1);
        let noise: i64 = self.fricative_noise.process();
        proof {
            lemma_fmul_bound(noise as int, intensity as int, 524288, FIX_ONE as int);
        }
        let turbulence_noise: i64 = fix_mul(noise, intensity);
        let ghost timer_snap: IntervalTimer = self.update_timer;
        let ghost noise_snap: Noise = self.fricative_noise;
        let mut vocal: i64 = 0;
        let mut k: usize = 0;
        let steps: usize = self.steps_per_process;
        while k < steps
            invariant
                k <= steps,
                1 <= steps <= 8,
                self.wf(),
                steps == self.steps_per_process,
                steps == mid.steps_per_process,
                -524288 <= x <= 524288,
                0 <= intensity <= FIX_ONE,
                -524288 <= turbulence_noise <= 524288,
                0 <= lambda <= FIX_ONE,
                iabs(vocal as int) <= (k as int) * 131072,
                self.source == old(self).source,
                self.target_diameter == old(self).target_diameter,
                self.movement_speed == old(self).movement_speed,
                self.update_timer == timer_snap,
                self.fricative_noise == noise_snap,
                self.reflections == mid.reflections,
                self.new_reflections == mid.new_reflections,
                self.params == mid.params,
                self.current_diameter == mid.current_diameter,
                self.last_obstruction == mid.last_obstruction,
                self.step200 == mid.step200,
                self.intensity_step == mid.intensity_step,
                self.transient_life == mid.transient_life,
                lambda == crate::fixed::fdiv(
                    mid.update_timer.time as int,
                    mid.update_timer.interval as int,
                ),
                noise_snap == crate::noise::spec_noise_step(mid.fricative_noise).0,
                turbulence_noise == fmul(
                    crate::noise::spec_noise_step(mid.fricative_noise).1,
                    intensity as int,
                ),
                ({
                    let fold = run_steps_model(
                        mid.state.model(),
                        mid.reflections,
                        mid.new_reflections,
                        mid.params.glottal_reflection as int,
                        mid.params.lip_reflection as int,
                        mid.params.fade as int,
                        lambda as int,
                        x as int,
                        turbulence_noise as int,
                        mid.step200 as int,
                        mid.intensity_step as int,
                        mid.transient_life as int,
                        k as nat,
                    );
                    self.state.model() == fold.0 && vocal as int == fold.1
                }),
            decreases steps - k,
        {
            let ghost pre_step: Tract = *self;
            let mn: (i64, i64) = self.run_step(x, turbulence_noise, lambda);
            vocal = vocal + mn.0 + mn.1;
            proof {
                reveal_with_fuel(run_steps_model, 2);
                let fold_k = run_steps_model(
                    mid.state.model(),
                    mid.reflections,
                    mid.new_reflections,
                    mid.params.glottal_reflection as int,
                    mid.params.lip_reflection as int,
                    mid.params.fade as int,
                    lambda as int,
                    x as int,
                    turbulence_noise as int,
                    mid.step200 as int,
                    mid.intensity_step as int,
                    mid.transient_life as int,
                    k as nat,
                );
                let st = crate::wave::run_step_model(
                    fold_k.0,
                    mid.reflections,
                    mid.new_reflections,
                    mid.params.glottal_reflection as int,
                    mid.params.lip_reflection as int,
                    mid.params.fade as int,
                    lambda as int,
                    x as int,
                    turbulence_noise as int,
                    mid.step200 as int,
                    mid.intensity_step as int,
                    mid.transient_life as int,
                );
                assert(pre_step.state.model() == fold_k.0);
                assert(self.state.model() == st.0);
                assert(mn.0 as int == st.1);
                assert(mn.1 as int == st.2);
            }
            k = k + 1;
        }
        proof {
            lemma_sdiv_bound(vocal as int, steps as int, 131072);
            assert(iabs(vocal as int) <= (steps as int) * 131072);
        }
        let out: i64 = div_trunc(vocal, steps as i64);
        proof {
            assert(block_phase_rel(*old(self), mid) && ({
                let lambda2 = crate::fixed::fdiv(
                    mid.update_timer.time as int,
                    mid.update_timer.interval as int,
                );
                let ns = crate::noise::spec_noise_step(mid.fricative_noise);
                let fold = run_steps_model(
                    mid.state.model(),
                    mid.reflections,
                    mid.new_reflections,
                    mid.params.glottal_reflection as int,
                    mid.params.lip_reflection as int,
                    mid.params.fade as int,
                    lambda2,
                    x as int,
                    fmul(ns.1, intensity as int),
                    mid.step200 as int,
                    mid.intensity_step as int,
                    mid.transient_life as int,
                    old(self).steps_per_process as nat,
                );
                &&& self.state.model() == fold.0
                &&& out == crate::fixed::sdiv(fold.1, old(self).steps_per_process as int)
                &&& self.fricative_noise == ns.0
                &&& self.reflections == mid.reflections
                &&& self.new_reflections == mid.new_reflections
                &&& self.current_diameter == mid.current_diameter
                &&& self.last_obstruction == mid.last_obstruction
            }));
            assert(tract_process_rel(*old(self), *self, intensity as int, x as int, out as int));
        }
        out
    }
}

} // verus!
