//! A smoothed random walk: the value chases a randomly re-drawn target with
//! a second-order smoothing step, re-randomizing its own rate each time a
//! per-target timer runs out.

use vstd::prelude::*;
use crate::fixed::{
    clamp_fix, fclamp, fdiv, fix_div, fix_mul, fmul, lemma_fmul_bound, FIX_BOUND, FIX_ONE,
};
use crate::noise::{lcg_next, lcg_out, rand_fixed};

verus! {

/// Safety window for the walk's value and velocity: four times full scale.
pub const WALK_LIMIT: i64 = 262144;

/// Ceiling on the per-step smoothing factor (just below one half).
pub const FACTOR_LIMIT: i64 = 49152;

/// The per-step smoothing factor: elapsed time times the current rate,
/// kept inside `[0, FACTOR_LIMIT]`.
pub open spec fn wiggle_factor(dtime: int, cf: int) -> int {
    fclamp(fmul(dtime, cf), 0, FACTOR_LIMIT as int)
}

/// The next velocity of the walk.
pub open spec fn wiggle_dvalue(dv: int, cur: int, next: int, factor: int) -> int {
    fclamp(
        fmul(dv, (FIX_ONE as int) - factor) + fmul(next - cur, fmul(factor, factor)),
        -WALK_LIMIT as int,
        WALK_LIMIT as int,
    )
}

/// A frequency scaled by a random factor in `[1/2, 3/2)`, kept positive.
pub open spec fn wiggle_rate(frequency: int, r: int) -> int {
    let c = fmul(frequency, r + 32768);
    if c < 1 {
        1
    } else {
        c
    }
}

/// The whole walk state after one step: the value moves per
/// `wiggle_dvalue`, and when the per-target timer has run out the rate and
/// the target are re-drawn from the stream.
pub open spec fn spec_wiggle_step(w: Wiggle) -> Wiggle {
    let dv = wiggle_dvalue(
        w.dvalue as int,
        w.current_value as int,
        w.next_value as int,
        wiggle_factor(w.dtime as int, w.current_frequency as int),
    );
    let cv = fclamp(w.current_value + dv, -WALK_LIMIT as int, WALK_LIMIT as int);
    if w.time - w.dtime >= 0 {
        Wiggle {
            current_value: cv as i64,
            dvalue: dv as i64,
            time: (w.time - w.dtime) as i64,
            ..w
        }
    } else {
        let cf = wiggle_rate(w.frequency as int, lcg_out(lcg_next(w.rand as int)));
        Wiggle {
            current_value: cv as i64,
            dvalue: dv as i64,
            current_frequency: cf as i64,
            time: fdiv(FIX_ONE as int, cf) as i64,
            next_value: (2 * lcg_out(lcg_next(lcg_next(w.rand as int))) - FIX_ONE) as i64,
            rand: lcg_next(lcg_next(w.rand as int)) as u32,
            ..w
        }
    }
}

/// `n` steps of the walk.
pub open spec fn spec_wiggle_iter(w: Wiggle, n: nat) -> Wiggle
    decreases n,
{
    if n == 0 {
        w
    } else {
        spec_wiggle_step(spec_wiggle_iter(w, (n - 1) as nat))
    }
}

pub struct Wiggle {
    pub frequency: i64,
    pub rand: u32,
    pub current_value: i64,
    pub next_value: i64,
    pub dvalue: i64,
    pub current_frequency: i64,
    pub time: i64,
    pub dtime: i64,
}

impl Wiggle {
    /// All state inside its window, and a usable time step and rate.
    pub open spec fn wf(self) -> bool {
        &&& 2 <= self.frequency <= 0x10000000
        &&& 1 <= self.dtime <= FIX_ONE
        &&& -WALK_LIMIT <= self.current_value <= WALK_LIMIT
        &&& -FIX_ONE <= self.next_value <= FIX_ONE
        &&& -WALK_LIMIT <= self.dvalue <= WALK_LIMIT
        &&& 1 <= self.current_frequency <= 0x20000000
        &&& -FIX_BOUND <= self.time <= FIX_BOUND
    }

    /// A fresh walk. The product of time step and frequency must stay under
    /// one half, or the smoothing recursion is unstable; such a
    /// configuration is rejected at construction.
    pub fn new(dtime: i64, frequency: i64, seed: u32) -> (r: Wiggle)
        requires
            seed != 0,
            1 <= dtime <= FIX_ONE,
            2 <= frequency <= 0x10000000,
            fmul(dtime as int, frequency as int) < 32768,
        ensures
            r.wf(),
            r.frequency == frequency,
            r.dtime == dtime,
            r.current_value == 0,
            r.dvalue == 0,
            r.current_frequency == wiggle_rate(
                frequency as int,
                lcg_out(lcg_next(seed as int)),
            ),
            r.time == fdiv(FIX_ONE as int, r.current_frequency as int),
            r.next_value == 2 * lcg_out(lcg_next(lcg_next(seed as int))) - FIX_ONE,
            r.rand == lcg_next(lcg_next(seed as int)),
    {
        let mut s: u32 = seed;
        let r1: i64 = rand_fixed(&mut s);
        let cf: i64 = rate_from(frequency, r1);
        let r2: i64 = rand_fixed(&mut s);
        let time: i64 = fix_div(FIX_ONE, cf);
        Wiggle {
            frequency,
            current_value: 0,
            next_value: 2 * r2 - FIX_ONE,
            dvalue: 0,
            current_frequency: cf,
            time,
            rand: s,
            dtime,
        }
    }

    /// One smoothing step: move the value toward the target, and when the
    /// per-target timer has run out, re-draw the rate and the target;
    /// exact per `spec_wiggle_step`.
    pub fn process(&mut self) -> (out: i64)
        requires
            old(self).wf(),
        ensures
            final(self).wf(),
            *final(self) == spec_wiggle_step(*old(self)),
            final(self).frequency == old(self).frequency,
            final(self).dtime == old(self).dtime,
            final(self).dvalue == wiggle_dvalue(
                old(self).dvalue as int,
                old(self).current_value as int,
                old(self).next_value as int,
                wiggle_factor(old(self).dtime as int, old(self).current_frequency as int),
            ),
            final(self).current_value == fclamp(
                old(self).current_value + final(self).dvalue,
                -WALK_LIMIT as int,
                WALK_LIMIT as int,
            ),
            out == final(self).current_value,
            old(self).time - old(self).dtime >= 0 ==> {
                &&& final(self).time == old(self).time - old(self).dtime
                &&& final(self).current_frequency == old(self).current_frequency
                &&& final(self).next_value == old(self).next_value
                &&& final(self).rand == old(self).rand
            },
            old(self).time - old(self).dtime < 0 ==> {
                &&& final(self).current_frequency == wiggle_rate(
                    old(self).frequency as int,
                    lcg_out(lcg_next(old(self).rand as int)),
                )
                &&& final(self).time == fdiv(
                    FIX_ONE as int,
                    final(self).current_frequency as int,
                )
                &&& final(self).next_value == 2 * lcg_out(
                    lcg_next(lcg_next(old(self).rand as int)),
                ) - FIX_ONE
                &&& final(self).rand == lcg_next(lcg_next(old(self).rand as int))
            },
    {
        proof {
            lemma_fmul_bound(
                self.dtime as int,
                self.current_frequency as int,
                FIX_ONE as int,
                0x20000000,
            );
        }
        let factor: i64 = clamp_fix(fix_mul(self.dtime, self.current_frequency), 0, FACTOR_LIMIT);
        proof {
            lemma_fmul_bound(factor as int, factor as int, FACTOR_LIMIT as int, FACTOR_LIMIT as int);
            lemma_fmul_bound(
                self.dvalue as int,
                (FIX_ONE - factor) as int,
                WALK_LIMIT as int,
                FIX_ONE as int,
            );
        }
        let ff: i64 = fix_mul(factor, factor);
        proof {
            lemma_fmul_bound(
                (self.next_value - self.current_value) as int,
                ff as int,
                (FIX_ONE + WALK_LIMIT) as int,
                36864,
            );
        }
        let dv: i64 = clamp_fix(
            fix_mul(self.dvalue, FIX_ONE - factor) + fix_mul(
                self.next_value - self.current_value,
                ff,
            ),
            -WALK_LIMIT,
            WALK_LIMIT,
        );
        self.dvalue = dv;
        self.current_value = clamp_fix(self.current_value + dv, -WALK_LIMIT, WALK_LIMIT);
        if self.time - self.dtime >= 0 {
            self.time = self.time - self.dtime;
        } else {
            let r1: i64 = rand_fixed(&mut self.rand);
            let cf: i64 = rate_from(self.frequency, r1);
            self.current_frequency = cf;
            self.time = fix_div(FIX_ONE, cf);
            let r2: i64 = rand_fixed(&mut self.rand);
            self.next_value = 2 * r2 - FIX_ONE;
        }
        proof {
            assert(*self == spec_wiggle_step(*old(self)));
        }
        self.current_value
    }
}

/// Scale `frequency` by the random factor `r + 1/2`, keeping the result a
/// positive, bounded rate; exact per `wiggle_rate`.
fn rate_from(frequency: i64, r: i64) -> (cf: i64)
    requires
        2 <= frequency <= 0x10000000,
        0 <= r < FIX_ONE,
    ensures
        cf == wiggle_rate(frequency as int, r as int),
        1 <= cf <= 0x20000000,
{
    proof {
        lemma_fmul_bound(frequency as int, (r + 32768) as int, 0x10000000, 98304);
    }
    let c: i64 = fix_mul(frequency, r + 32768);
    if c < 1 {
        1
    } else {
        c
    }
}

} // verus!
