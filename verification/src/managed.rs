//! The smoothed parameter controllers that feed the kernel: a discrete PID
//! controller, pitch with vibrato and wobble, tenseness and loudness
//! smoothing, and an intensity envelope.

use vstd::prelude::*;
use crate::fixed::{
    clamp_fix, div_pos, div_trunc, fclamp, fix_div, fix_mul, flerp, fmul, lemma_fmul_bound,
    lerp_fix, sdiv, sin_turns, spec_sin_turns, turn_mod, FIX_BOUND, FIX_ONE,
};
use crate::shape::spec_move_towards;
use crate::wiggle::{spec_wiggle_iter, spec_wiggle_step, Wiggle};

verus! {

/// One second of the fine per-sample clock: controller time steps are held
/// at this resolution so that one audio sample (tens of microseconds) is
/// still hundreds of ticks.
pub const TICK_SCALE: i64 = 16777216;

/// Scale a value by a time step given in fine ticks.
pub open spec fn tick_mul(a: int, dt: int) -> int {
    sdiv(a * dt, TICK_SCALE as int)
}

/// Smallest admissible output frequency (10 Hz).
pub const FREQ_MIN: i64 = 655360;

/// Largest admissible output frequency (10 kHz).
pub const FREQ_MAX: i64 = 655360000;

/// PID gains.
#[derive(Debug, Clone, Copy)]
pub struct PIDParam {
    pub kp: i64,
    pub ki: i64,
    pub kd: i64,
}

impl PIDParam {
    pub open spec fn wf(self) -> bool {
        &&& 0 <= self.kp <= 0x1000000
        &&& 0 <= self.ki <= 0x1000000
        &&& 0 <= self.kd <= 0x1000000
    }

    pub fn new(kp: i64, ki: i64, kd: i64) -> (r: PIDParam)
        requires
            0 <= kp <= 0x1000000,
            0 <= ki <= 0x1000000,
            0 <= kd <= 0x1000000,
        ensures
            r.wf(),
            r.kp == kp,
            r.ki == ki,
            r.kd == kd,
    {
        PIDParam { kp, ki, kd }
    }
}

/// One PID step: proportional and (clamped) integral terms scaled by the
/// time step (in fine ticks), plus the derivative term; the output is
/// clamped.
pub open spec fn pid_step(
    integral: int,
    last: int,
    dtime: int,
    p: PIDParam,
    x: int,
) -> (int, int) {
    let integral2 = fclamp(integral + tick_mul(x, dtime), -0x40000000, 0x40000000);
    let drive = fclamp(
        fmul(x, p.kp as int) + fmul(integral2, p.ki as int),
        -0x800000000,
        0x800000000,
    );
    let y = fclamp(
        tick_mul(drive, dtime) + fmul(x - last, p.kd as int),
        -0x40000000,
        0x40000000,
    );
    (integral2, y)
}

/// A discrete PID controller.
pub struct PIDController {
    pub dtime: i64,
    pub integral: i64,
    pub last: i64,
}

impl PIDController {
    pub open spec fn wf(self) -> bool {
        &&& 1 <= self.dtime <= TICK_SCALE
        &&& -0x40000000 <= self.integral <= 0x40000000
        &&& -0x40000000 <= self.last <= 0x40000000
    }

    /// The per-sample time step at a sample rate, in fine ticks.
    pub open spec fn spec_sample_ticks(sample_rate: int) -> int {
        let q = 0x10000000000int / sample_rate;
        if q < 1 {
            1
        } else {
            q
        }
    }

    /// A controller at rest for the given sample rate (fixed point,
    /// hertz); its time step is one sample, in fine ticks.
    pub fn new(sample_rate: i64) -> (r: PIDController)
        requires
            FIX_ONE <= sample_rate <= FIX_BOUND,
        ensures
            r.wf(),
            r.integral == 0,
            r.last == 0,
            r.dtime == PIDController::spec_sample_ticks(sample_rate as int),
    {
        let dt: i64 = sample_ticks(sample_rate);
        PIDController { dtime: dt, integral: 0, last: 0 }
    }

    /// One step on the error `x`; exact per `pid_step`.
    pub fn process(&mut self, pid: &PIDParam, x: i64) -> (y: i64)
        requires
            old(self).wf(),
            pid.wf(),
            -0x40000000 <= x <= 0x40000000,
        ensures
            final(self).wf(),
            final(self).dtime == old(self).dtime,
            final(self).last == x,
            ({
                let st = pid_step(
                    old(self).integral as int,
                    old(self).last as int,
                    old(self).dtime as int,
                    *pid,
                    x as int,
                );
                final(self).integral == st.0 && y == st.1
            }),
            -0x40000000 <= y <= 0x40000000,
    {
        proof {
            assert(-0x100000000000000 <= (x as int) * (self.dtime as int) <= 0x100000000000000)
                by (nonlinear_arith)
                requires
                    -0x40000000 <= x <= 0x40000000,
                    1 <= self.dtime <= 0x1000000,
            ;
            crate::fixed::lemma_sdiv_abs((x as int) * (self.dtime as int), TICK_SCALE as int);
        }
        let integral2: i64 = clamp_fix(
            self.integral + div_trunc(x * self.dtime, TICK_SCALE),
            -0x40000000,
            0x40000000,
        );
        proof {
            lemma_fmul_bound(x as int, pid.kp as int, 0x40000000, 0x1000000);
            lemma_fmul_bound(integral2 as int, pid.ki as int, 0x40000000, 0x1000000);
        }
        let t1: i64 = fix_mul(x, pid.kp);
        let t2: i64 = fix_mul(integral2, pid.ki);
        let drive: i64 = clamp_fix(t1 + t2, -0x800000000, 0x800000000);
        proof {
            assert(-0x2000000000000000 <= (drive as int) * (self.dtime as int)
                <= 0x2000000000000000) by (nonlinear_arith)
                requires
                    -0x800000000 <= drive <= 0x800000000,
                    1 <= self.dtime <= 0x1000000,
            ;
            crate::fixed::lemma_sdiv_abs((drive as int) * (self.dtime as int), TICK_SCALE as int);
            lemma_fmul_bound((x - self.last) as int, pid.kd as int, 0x80000000, 0x1000000);
        }
        let y: i64 = clamp_fix(
            div_trunc(drive * self.dtime, TICK_SCALE) + fix_mul(x - self.last, pid.kd),
            -0x40000000,
            0x40000000,
        );
        self.integral = integral2;
        self.last = x;
        y
    }
}

/// One sample in fine ticks; exact per `PIDController::spec_sample_ticks`
/// and never more than one whole second.
pub fn sample_ticks(sample_rate: i64) -> (dt: i64)
    requires
        FIX_ONE <= sample_rate <= FIX_BOUND,
    ensures
        dt == PIDController::spec_sample_ticks(sample_rate as int),
        1 <= dt <= TICK_SCALE,
{
    let q: i64 = div_pos(0x10000000000, sample_rate);
    proof {
        assert((sample_rate as int) * (TICK_SCALE as int) >= 0x10000000000)
            by (nonlinear_arith)
            requires
                sample_rate >= 65536,
                TICK_SCALE == 16777216,
        ;
        crate::fixed::lemma_udiv_bound(0x10000000000, sample_rate as int, TICK_SCALE as int);
    }
    if q < 1 {
        1
    } else {
        q
    }
}

/// The pitch controller: a smoothed target frequency under vibrato, wobble
/// and pitch-bend, chased by a PID loop and clamped to the audible band.
pub struct Frequency {
    pub value: i64,
    pub pid: PIDController,
    pub old_vibrate: i64,
    pub new_vibrate: i64,
    pub target_frequency: i64,
    pub pitchbend: i64,
    pub phase: i64,
    pub wiggles: [Wiggle; 2],
}

impl Frequency {
    pub open spec fn wf(self) -> bool {
        &&& FREQ_MIN <= self.value <= FREQ_MAX
        &&& self.pid.wf()
        &&& 0 <= self.old_vibrate <= 2 * FIX_ONE
        &&& 0 <= self.new_vibrate <= 2 * FIX_ONE
        &&& FREQ_MIN <= self.target_frequency <= FREQ_MAX
        &&& 16384 <= self.pitchbend <= 262144
        &&& 0 <= self.phase < FIX_ONE
        &&& self.wiggles[0].wf()
        &&& self.wiggles[1].wf()
    }

    /// A controller resting at `frequency`, with the vibrato phase seeded.
    #[verifier::rlimit(30)]
    pub fn new(dtime: i64, seed: u32, frequency: i64, sample_rate: i64) -> (r: Frequency)
        requires
            4 <= dtime <= 1600,
            seed < 0xFFFFFFF0,
            FREQ_MIN <= frequency <= FREQ_MAX,
            FIX_ONE <= sample_rate <= FIX_BOUND,
        ensures
            r.wf(),
            r.value == frequency,
            r.target_frequency == frequency,
            r.pitchbend == FIX_ONE,
    {
        proof {
            vstd::arithmetic::div_mod::lemma_mod_bound((seed as int) * 6554, FIX_ONE as int);
            assert((seed as int) * 6554 >= 0) by (nonlinear_arith)
                requires
                    seed >= 0,
            ;
            assert((seed as int) * 6554 <= 0xFFFFFFFF * 6554) by (nonlinear_arith)
                requires
                    seed <= 0xFFFFFFFF,
            ;
        }
        let phase: i64 = (((seed as u64) * 6554) % (FIX_ONE as u64)) as i64;
        let quarter: i64 = dtime / 4;
        let quarter: i64 = if quarter < 1 {
            1
        } else {
            quarter
        };
        proof {
            lemma_fmul_bound(quarter as int, 1333658, 400, 1333658);
            lemma_fmul_bound(quarter as int, 704512, 400, 704512);
            crate::fixed::lemma_sdiv_abs((quarter as int) * 1333658, FIX_ONE as int);
            crate::fixed::lemma_sdiv_abs((quarter as int) * 704512, FIX_ONE as int);
        }
        Frequency {
            value: frequency,
            pid: PIDController::new(sample_rate),
            old_vibrate: FIX_ONE,
            new_vibrate: FIX_ONE,
            target_frequency: frequency,
            pitchbend: FIX_ONE,
            phase,
            wiggles: [
                Wiggle::new(quarter, 1333658, seed + 1),
                Wiggle::new(quarter, 704512, seed + 2),
            ],
        }
    }

    /// Aim at a new frequency; when `reset` the output snaps there at
    /// once (used after a silence so the pitch does not glide in).
    pub fn set(&mut self, frequency: i64, reset: bool)
        requires
            old(self).wf(),
            FREQ_MIN <= frequency <= FREQ_MAX,
        ensures
            final(self).wf(),
            final(self).target_frequency == frequency,
            final(self).value == if reset {
                frequency
            } else {
                old(self).value
            },
            final(self).pid == old(self).pid,
            final(self).pitchbend == old(self).pitchbend,
    {
        self.target_frequency = frequency;
        if reset {
            self.value = frequency;
        }
    }

    /// One block update: advance the vibrato oscillator by the block time,
    /// fold in the wobble from the two random walks (which advance four
    /// steps per block, as they run on a quarter of the block period), and
    /// latch the previous block's vibrato factor for interpolation.
    #[verifier::rlimit(60)]
    pub fn update(
        &mut self,
        dtime: i64,
        wobble_amount: i64,
        vibrato_amount: i64,
        vibrato_frequency: i64,
    )
        requires
            old(self).wf(),
            0 <= dtime <= FIX_ONE,
            0 <= wobble_amount <= 5 * FIX_ONE,
            0 <= vibrato_amount <= 6554,
            6554 <= vibrato_frequency <= 20 * FIX_ONE,
        ensures
            final(self).wf(),
            final(self).old_vibrate == old(self).new_vibrate,
            final(self).value == old(self).value,
            final(self).target_frequency == old(self).target_frequency,
            final(self).pitchbend == old(self).pitchbend,
            final(self).pid == old(self).pid,
            final(self).phase == (old(self).phase + fmul(
                dtime as int,
                vibrato_frequency as int,
            )) % (FIX_ONE as int),
            final(self).wiggles[0] == spec_wiggle_iter(old(self).wiggles[0], 4),
            final(self).wiggles[1] == spec_wiggle_iter(old(self).wiggles[1], 4),
            final(self).new_vibrate == fclamp(
                FIX_ONE + fmul(vibrato_amount as int, spec_sin_turns(old(self).phase as int))
                    + fmul(
                    wobble_amount as int,
                    fmul(655, spec_wiggle_step(old(self).wiggles[0]).current_value as int) + fmul(
                        1311,
                        spec_wiggle_step(old(self).wiggles[1]).current_value as int,
                    ),
                ),
                0,
                2 * FIX_ONE as int,
            ),
    {
        proof {
            lemma_fmul_bound(vibrato_amount as int, spec_sin_turns(self.phase as int), 6554, FIX_ONE as int);
        }
        let mut vibrato: i64 = fix_mul(vibrato_amount, sin_turns(self.phase));
        proof {
            lemma_fmul_bound(dtime as int, vibrato_frequency as int, FIX_ONE as int, 20 * (
            FIX_ONE as int));
        }
        let step: i64 = fix_mul(dtime, vibrato_frequency);
        self.phase = turn_mod(self.phase + step);
        let w1: i64 = self.wiggles[0].process();
        let w2: i64 = self.wiggles[1].process();
        proof {
            lemma_fmul_bound(655, w1 as int, 655, 262144);
            lemma_fmul_bound(1311, w2 as int, 1311, 262144);
        }
        let wob: i64 = fix_mul(655, w1) + fix_mul(1311, w2);
        proof {
            lemma_fmul_bound(wobble_amount as int, wob as int, 5 * (FIX_ONE as int), 7866);
        }
        vibrato = vibrato + fix_mul(wobble_amount, wob);
        let ghost snap: Frequency = *self;
        let ghost w0_start: Wiggle = old(self).wiggles[0];
        let ghost w1_start: Wiggle = old(self).wiggles[1];
        proof {
            reveal_with_fuel(spec_wiggle_iter, 6);
            assert(self.wiggles[0] == spec_wiggle_iter(w0_start, 1));
            assert(self.wiggles[1] == spec_wiggle_iter(w1_start, 1));
        }
        let mut k: usize = 0;
        while k < 3
            invariant
                k <= 3,
                self.wiggles[0].wf(),
                self.wiggles[1].wf(),
                self.wiggles[0] == spec_wiggle_iter(w0_start, (k + 1) as nat),
                self.wiggles[1] == spec_wiggle_iter(w1_start, (k + 1) as nat),
                self.value == snap.value,
                self.pid == snap.pid,
                self.old_vibrate == snap.old_vibrate,
                self.new_vibrate == snap.new_vibrate,
                self.target_frequency == snap.target_frequency,
                self.pitchbend == snap.pitchbend,
                self.phase == snap.phase,
            decreases 3 - k,
        {
            let _d1: i64 = self.wiggles[0].process();
            let _d2: i64 = self.wiggles[1].process();
            proof {
                reveal_with_fuel(spec_wiggle_iter, 6);
                assert(self.wiggles[0] == spec_wiggle_iter(w0_start, (k + 2) as nat));
                assert(self.wiggles[1] == spec_wiggle_iter(w1_start, (k + 2) as nat));
            }
            k = k + 1;
        }
        self.old_vibrate = self.new_vibrate;
        self.new_vibrate = clamp_fix(FIX_ONE + vibrato, 0, 2 * FIX_ONE);
    }

    /// The per-sample output frequency: the vibrato-scaled, bent target is
    /// chased by one PID step from the current value, clamped into the
    /// audible band.
    pub fn get(&mut self, pid: &PIDParam, lambda: i64) -> (f: i64)
        requires
            old(self).wf(),
            pid.wf(),
            0 <= lambda <= FIX_ONE,
        ensures
            final(self).wf(),
            FREQ_MIN <= f <= FREQ_MAX,
            f == final(self).value,
            final(self).target_frequency == old(self).target_frequency,
            final(self).pitchbend == old(self).pitchbend,
            final(self).old_vibrate == old(self).old_vibrate,
            final(self).new_vibrate == old(self).new_vibrate,
            final(self).phase == old(self).phase,
            final(self).wiggles == old(self).wiggles,
            ({
                let vibrate = flerp(
                    old(self).old_vibrate as int,
                    old(self).new_vibrate as int,
                    lambda as int,
                );
                let target = fclamp(
                    fmul(
                        fmul(old(self).target_frequency as int, vibrate),
                        old(self).pitchbend as int,
                    ),
                    FREQ_MIN as int,
                    FREQ_MAX as int,
                );
                let err = fclamp(target - old(self).value, -0x40000000, 0x40000000);
                let st = pid_step(
                    old(self).pid.integral as int,
                    old(self).pid.last as int,
                    old(self).pid.dtime as int,
                    *pid,
                    err,
                );
                &&& final(self).pid.integral == st.0
                &&& final(self).pid.last == err
                &&& final(self).pid.dtime == old(self).pid.dtime
                &&& final(self).value == fclamp(
                    old(self).value + st.1,
                    FREQ_MIN as int,
                    FREQ_MAX as int,
                )
            }),
    {
        let vibrate: i64 = lerp_fix(self.old_vibrate, self.new_vibrate, lambda);
        proof {
            lemma_fmul_bound(
                self.target_frequency as int,
                vibrate as int,
                FREQ_MAX as int,
                2 * FIX_ONE as int,
            );
            lemma_fmul_bound(
                fmul(self.target_frequency as int, vibrate as int),
                self.pitchbend as int,
                2 * FREQ_MAX as int,
                262144,
            );
        }
        let target: i64 = fix_mul(fix_mul(self.target_frequency, vibrate), self.pitchbend);
        let target: i64 = clamp_fix(target, FREQ_MIN, FREQ_MAX);
        let err: i64 = clamp_fix(target - self.value, -0x40000000, 0x40000000);
        let dv: i64 = self.pid.process(pid, err);
        self.value = clamp_fix(self.value + dv, FREQ_MIN, FREQ_MAX);
        self.value
    }
}

/// Tenseness smoothing with a random wobble, interpolated inside each
/// block.
pub struct Tenseness {
    pub old_tenseness: i64,
    pub new_tenseness: i64,
    pub target_tenseness: i64,
    pub wiggles: [Wiggle; 2],
    pub wobble_amount: i64,
}

impl Tenseness {
    pub open spec fn wf(self) -> bool {
        &&& 0 <= self.old_tenseness <= FIX_ONE
        &&& 0 <= self.new_tenseness <= FIX_ONE
        &&& 0 <= self.target_tenseness <= FIX_ONE
        &&& self.wiggles[0].wf()
        &&& self.wiggles[1].wf()
        &&& 0 <= self.wobble_amount <= 5 * FIX_ONE
    }

    pub fn new(dtime: i64, seed: u32, tenseness: i64) -> (r: Tenseness)
        requires
            4 <= dtime <= 1600,
            seed < 0xFFFFFFF0,
            0 <= tenseness <= FIX_ONE,
        ensures
            r.wf(),
            r.target_tenseness == tenseness,
            r.old_tenseness == tenseness,
            r.new_tenseness == tenseness,
    {
        proof {
            lemma_fmul_bound(dtime as int, 150733, 1600, 150733);
            lemma_fmul_bound(dtime as int, 117965, 1600, 117965);
            crate::fixed::lemma_sdiv_abs((dtime as int) * 150733, FIX_ONE as int);
            crate::fixed::lemma_sdiv_abs((dtime as int) * 117965, FIX_ONE as int);
        }
        Tenseness {
            old_tenseness: tenseness,
            new_tenseness: tenseness,
            target_tenseness: tenseness,
            wiggles: [
                Wiggle::new(dtime, 150733, seed + 1),
                Wiggle::new(dtime, 117965, seed + 2),
            ],
            wobble_amount: FIX_ONE,
        }
    }

    /// One block update: chase the target with the wobble folded in, and
    /// keep the previous block value for interpolation; the new value is
    /// exactly the clamped target-plus-wobble, and both walks advance one
    /// step.
    pub fn update(&mut self)
        requires
            old(self).wf(),
        ensures
            final(self).wf(),
            final(self).old_tenseness == old(self).new_tenseness,
            final(self).target_tenseness == old(self).target_tenseness,
            final(self).wobble_amount == old(self).wobble_amount,
            final(self).wiggles[0] == spec_wiggle_step(old(self).wiggles[0]),
            final(self).wiggles[1] == spec_wiggle_step(old(self).wiggles[1]),
            final(self).new_tenseness == fclamp(
                old(self).target_tenseness + fmul(
                    fmul(3277, spec_wiggle_step(old(self).wiggles[0]).current_value as int)
                        + fmul(1638, spec_wiggle_step(old(self).wiggles[1]).current_value as int),
                    old(self).wobble_amount as int,
                ),
                0,
                FIX_ONE as int,
            ),
    {
        self.old_tenseness = self.new_tenseness;
        let w1: i64 = self.wiggles[0].process();
        let w2: i64 = self.wiggles[1].process();
        proof {
            lemma_fmul_bound(3277, w1 as int, 3277, 262144);
            lemma_fmul_bound(1638, w2 as int, 1638, 262144);
        }
        let wob: i64 = fix_mul(3277, w1) + fix_mul(1638, w2);
        proof {
            lemma_fmul_bound(wob as int, self.wobble_amount as int, 19662, 5 * (FIX_ONE as int));
        }
        self.new_tenseness = clamp_fix(
            self.target_tenseness + fix_mul(wob, self.wobble_amount),
            0,
            FIX_ONE,
        );
    }

    /// The interpolated per-sample tenseness.
    pub fn get(&self, lambda: i64) -> (t: i64)
        requires
            self.wf(),
            0 <= lambda <= FIX_ONE,
        ensures
            t == flerp(self.old_tenseness as int, self.new_tenseness as int, lambda as int),
            0 <= t <= FIX_ONE,
    {
        lerp_fix(self.old_tenseness, self.new_tenseness, lambda)
    }
}

/// The intensity envelope: a PID chase toward full level while sounding,
/// with a constant downward bias so silence decays on its own.
pub struct Intensity {
    pub value: i64,
    pub bias: i64,
    pub pid: PIDController,
}

impl Intensity {
    pub open spec fn wf(self) -> bool {
        &&& 0 <= self.value <= 2 * FIX_ONE
        &&& -FIX_ONE <= self.bias <= 0
        &&& self.pid.wf()
    }

    pub fn new(sample_rate: i64) -> (r: Intensity)
        requires
            FIX_ONE <= sample_rate <= FIX_BOUND,
        ensures
            r.wf(),
            r.value == 0,
            r.bias == -FIX_ONE,
    {
        Intensity { value: 0, bias: -FIX_ONE, pid: PIDController::new(sample_rate) }
    }

    /// The current envelope level.
    pub fn get(&self) -> (v: i64)
        ensures
            v == self.value,
    {
        self.value
    }

    /// One step toward `target`: exactly the PID response to the error,
    /// plus the constant downward bias over the elapsed ticks, floored at
    /// zero.
    pub fn process(&mut self, pid: &PIDParam, target: i64) -> (v: i64)
        requires
            old(self).wf(),
            pid.wf(),
            0 <= target <= FIX_ONE,
        ensures
            final(self).wf(),
            v == final(self).value,
            0 <= v <= 2 * FIX_ONE,
            final(self).bias == old(self).bias,
            ({
                let st = pid_step(
                    old(self).pid.integral as int,
                    old(self).pid.last as int,
                    old(self).pid.dtime as int,
                    *pid,
                    target - old(self).value,
                );
                &&& final(self).pid.integral == st.0
                &&& final(self).pid.last == target - old(self).value
                &&& final(self).pid.dtime == old(self).pid.dtime
                &&& final(self).value == fclamp(
                    old(self).value + st.1 + tick_mul(
                        old(self).bias as int,
                        old(self).pid.dtime as int,
                    ),
                    0,
                    2 * FIX_ONE as int,
                )
            }),
    {
        let err: i64 = target - self.value;
        let dv: i64 = self.pid.process(pid, err);
        proof {
            assert(-0x1000000000000 <= (self.bias as int) * (self.pid.dtime as int) <= 0)
                by (nonlinear_arith)
                requires
                    -65536 <= self.bias <= 0,
                    1 <= self.pid.dtime <= 0x1000000,
            ;
            crate::fixed::lemma_sdiv_abs(
                (self.bias as int) * (self.pid.dtime as int),
                TICK_SCALE as int,
            );
        }
        let biased: i64 = div_trunc(self.bias * self.pid.dtime, TICK_SCALE);
        self.value = clamp_fix(self.value + dv + biased, 0, 2 * FIX_ONE);
        self.value
    }
}

/// First-order loudness slew toward the target at ten units per second.
pub struct Loudness {
    pub current: i64,
    pub target: i64,
}

impl Loudness {
    pub open spec fn wf(self) -> bool {
        &&& 0 <= self.current <= FIX_ONE
        &&& 0 <= self.target <= FIX_ONE
    }

    pub fn new(loudness: i64) -> (r: Loudness)
        requires
            0 <= loudness <= FIX_ONE,
        ensures
            r.wf(),
            r.current == loudness,
            r.target == loudness,
    {
        Loudness { current: loudness, target: loudness }
    }

    /// One step toward the target over `dtime` fine ticks; exact per
    /// `spec_move_towards` with a symmetric rate of ten per second.
    pub fn process(&mut self, dtime: i64) -> (v: i64)
        requires
            old(self).wf(),
            1 <= dtime <= TICK_SCALE,
        ensures
            final(self).wf(),
            final(self).target == old(self).target,
            final(self).current == spec_move_towards(
                old(self).current as int,
                old(self).target as int,
                tick_mul(655360, dtime as int),
                tick_mul(655360, dtime as int),
            ),
            v == final(self).current,
    {
        proof {
            assert(0 <= 655360 * (dtime as int) <= 0x10000000000000) by (nonlinear_arith)
                requires
                    1 <= dtime <= 0x1000000,
            ;
            crate::fixed::lemma_sdiv_abs(655360 * (dtime as int), TICK_SCALE as int);
            vstd::arithmetic::div_mod::lemma_div_pos_is_pos(
                655360 * (dtime as int),
                TICK_SCALE as int,
            );
        }
        let step: i64 = div_trunc(655360 * dtime, TICK_SCALE);
        let nv: i64 = crate::shape::move_towards(self.current, self.target, step, step);
        self.current = nv;
        self.current
    }
}

/// The tongue chased toward its target along a scaled diagonal: the
/// horizontal axis moves eight times faster, both clamped at the target.
pub struct ManagedTract {
    pub tongue_target: (i64, i64),
    pub speed: i64,
}

impl ManagedTract {
    pub open spec fn wf(self) -> bool {
        &&& crate::shape::TONGUE_INDEX_MIN <= self.tongue_target.0
            <= crate::shape::TONGUE_INDEX_MAX
        &&& crate::shape::TONGUE_INNER <= self.tongue_target.1 <= crate::shape::TONGUE_OUTER
        &&& 0 <= self.speed <= 20971520
    }

    pub fn new() -> (r: ManagedTract)
        ensures
            r.wf(),
            r.tongue_target.0 == crate::shape::DEFAULT_TONGUE_INDEX,
            r.tongue_target.1 == crate::shape::DEFAULT_TONGUE_DIAMETER,
            r.speed == 1310720,
    {
        ManagedTract {
            tongue_target: (
                crate::shape::DEFAULT_TONGUE_INDEX,
                crate::shape::DEFAULT_TONGUE_DIAMETER,
            ),
            speed: 1310720,
        }
    }

    /// One block step of the tongue toward its target along the scaled
    /// diagonal: the offset is measured with the index axis compressed
    /// eight-fold, the step is the block speed along that diagonal (so the
    /// index axis moves eight times faster), each axis stops at its target,
    /// and a tongue already at its target stays put. The tongue stays
    /// inside its reachable bands.
    pub fn update(&mut self, dtime: i64, tongue: &mut (i64, i64))
        requires
            old(self).wf(),
            0 <= dtime <= FIX_ONE,
            crate::shape::TONGUE_INDEX_MIN <= old(tongue).0 <= crate::shape::TONGUE_INDEX_MAX,
            crate::shape::TONGUE_INNER <= old(tongue).1 <= crate::shape::TONGUE_OUTER,
        ensures
            final(self).tongue_target == old(self).tongue_target,
            final(self).speed == old(self).speed,
            ({
                let target = old(self).tongue_target;
                let x = crate::fixed::sdiv(target.0 - old(tongue).0, 8);
                let y = target.1 - old(tongue).1;
                let d = crate::fixed::isqrt((fmul(x, x) + fmul(y, y)) * (FIX_ONE as int));
                if d < 7 {
                    *final(tongue) == *old(tongue)
                } else {
                    let step = fmul(dtime as int, old(self).speed as int);
                    let dx = 8 * fmul(crate::fixed::fdiv(x, d), step);
                    let dy = fmul(crate::fixed::fdiv(y, d), step);
                    &&& final(tongue).0 == crate::fixed::fclamp(
                        (if target.0 < old(tongue).0 {
                            if old(tongue).0 + dx > target.0 {
                                old(tongue).0 + dx
                            } else {
                                target.0 as int
                            }
                        } else {
                            if old(tongue).0 + dx < target.0 {
                                old(tongue).0 + dx
                            } else {
                                target.0 as int
                            }
                        }),
                        crate::shape::TONGUE_INDEX_MIN as int,
                        crate::shape::TONGUE_INDEX_MAX as int,
                    )
                    &&& final(tongue).1 == crate::fixed::fclamp(
                        (if target.1 < old(tongue).1 {
                            if old(tongue).1 + dy > target.1 {
                                old(tongue).1 + dy
                            } else {
                                target.1 as int
                            }
                        } else {
                            if old(tongue).1 + dy < target.1 {
                                old(tongue).1 + dy
                            } else {
                                target.1 as int
                            }
                        }),
                        crate::shape::TONGUE_INNER as int,
                        crate::shape::TONGUE_OUTER as int,
                    )
                }
            }),
            crate::shape::TONGUE_INDEX_MIN <= final(tongue).0 <= crate::shape::TONGUE_INDEX_MAX,
            crate::shape::TONGUE_INNER <= final(tongue).1 <= crate::shape::TONGUE_OUTER,
    {
        let x: i64 = crate::fixed::div_trunc(self.tongue_target.0 - tongue.0, 8);
        let y: i64 = self.tongue_target.1 - tongue.1;
        proof {
            lemma_fmul_bound(x as int, x as int, 139264, 139264);
            lemma_fmul_bound(y as int, y as int, 95027, 95027);
            crate::fixed::lemma_sdiv_abs((x as int) * (x as int), FIX_ONE as int);
            crate::fixed::lemma_sdiv_abs((y as int) * (y as int), FIX_ONE as int);
            assert((x as int) * (x as int) >= 0) by (nonlinear_arith);
            assert((y as int) * (y as int) >= 0) by (nonlinear_arith);
            vstd::arithmetic::div_mod::lemma_div_pos_is_pos(
                (x as int) * (x as int),
                FIX_ONE as int,
            );
            vstd::arithmetic::div_mod::lemma_div_pos_is_pos(
                (y as int) * (y as int),
                FIX_ONE as int,
            );
        }
        let d: i64 = crate::fixed::sqrt_fix(fix_mul(x, x) + fix_mul(y, y));
        if d < 7 {
            return ;
        }
        proof {
            lemma_fmul_bound(dtime as int, self.speed as int, FIX_ONE as int, 20971520);
            crate::fixed::lemma_sdiv_abs((dtime as int) * (self.speed as int), FIX_ONE as int);
            vstd::arithmetic::div_mod::lemma_div_pos_is_pos(
                (dtime as int) * (self.speed as int),
                FIX_ONE as int,
            );
            assert((dtime as int) * (self.speed as int) >= 0) by (nonlinear_arith)
                requires
                    dtime >= 0,
                    self.speed >= 0,
            ;
        }
        let step: i64 = fix_mul(dtime, self.speed);
        let rx: i64 = fix_div(x, d);
        let ry: i64 = fix_div(y, d);
        proof {
            crate::fixed::lemma_sdiv_abs((x as int) * (FIX_ONE as int), d as int);
            crate::fixed::lemma_sdiv_abs((y as int) * (FIX_ONE as int), d as int);
            lemma_fmul_bound(rx as int, step as int, 0x400000000, 20971520);
            lemma_fmul_bound(ry as int, step as int, 0x400000000, 20971520);
        }
        let dx: i64 = 8 * fix_mul(rx, step);
        let dy: i64 = fix_mul(ry, step);
        let nx0: i64 = if self.tongue_target.0 < tongue.0 {
            if tongue.0 + dx > self.tongue_target.0 {
                tongue.0 + dx
            } else {
                self.tongue_target.0
            }
        } else {
            if tongue.0 + dx < self.tongue_target.0 {
                tongue.0 + dx
            } else {
                self.tongue_target.0
            }
        };
        let ny0: i64 = if self.tongue_target.1 < tongue.1 {
            if tongue.1 + dy > self.tongue_target.1 {
                tongue.1 + dy
            } else {
                self.tongue_target.1
            }
        } else {
            if tongue.1 + dy < self.tongue_target.1 {
                tongue.1 + dy
            } else {
                self.tongue_target.1
            }
        };
        let nx: i64 = clamp_fix(
            nx0,
            crate::shape::TONGUE_INDEX_MIN,
            crate::shape::TONGUE_INDEX_MAX,
        );
        let ny: i64 = clamp_fix(ny0, crate::shape::TONGUE_INNER, crate::shape::TONGUE_OUTER);
        *tongue = (nx, ny);
    }
}

} // verus!
