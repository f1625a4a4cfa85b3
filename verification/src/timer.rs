//! A timer that fires every `interval` seconds of accumulated time and
//! reports how far the current interval has progressed. Times are fixed
//! point, in seconds.

use vstd::prelude::*;
use vstd::arithmetic::div_mod::*;
use crate::fixed::{fdiv, fix_div, lemma_sdiv_abs, lemma_udiv_bound, FIX_ONE};

verus! {

pub struct IntervalTimer {
    pub interval: i64,
    pub time: i64,
    pub overflowed: bool,
}

impl IntervalTimer {
    /// The timer is consistent: a positive period, and a phase inside it.
    pub open spec fn wf(self) -> bool {
        1 <= self.interval <= FIX_ONE * 16 && 0 <= self.time < self.interval
    }

    /// A fresh timer that has not yet fired.
    pub fn new(interval: i64) -> (r: IntervalTimer)
        requires
            1 <= interval <= FIX_ONE * 16,
        ensures
            r.wf(),
            r.interval == interval,
            r.time == 0,
            !r.overflowed,
    {
        IntervalTimer { interval, time: 0, overflowed: false }
    }

    /// A fresh timer that fires immediately on the first check.
    pub fn new_overflowed(interval: i64) -> (r: IntervalTimer)
        requires
            1 <= interval <= FIX_ONE * 16,
        ensures
            r.wf(),
            r.interval == interval,
            r.time == 0,
            r.overflowed,
    {
        IntervalTimer { interval, time: 0, overflowed: true }
    }

    /// Time accumulated inside the current interval.
    pub fn time(&self) -> (r: i64)
        ensures
            r == self.time,
    {
        self.time
    }

    /// Whether the last `update` crossed an interval boundary.
    pub fn overflowed(&self) -> (r: bool)
        ensures
            r == self.overflowed,
    {
        self.overflowed
    }

    /// Fraction of the current interval that has elapsed, in `[0, FIX_ONE]`.
    pub fn progress(&self) -> (r: i64)
        requires
            self.wf(),
        ensures
            r == fdiv(self.time as int, self.interval as int),
            0 <= r <= FIX_ONE,
    {
        let r: i64 = fix_div(self.time, self.interval);
        proof {
            lemma_sdiv_abs((self.time as int) * (FIX_ONE as int), self.interval as int);
            assert((self.time as int) * (FIX_ONE as int) <= (self.interval as int) * (
            FIX_ONE as int)) by (nonlinear_arith)
                requires
                    0 <= self.time <= self.interval,
            ;
            lemma_udiv_bound(
                (self.time as int) * (FIX_ONE as int),
                self.interval as int,
                FIX_ONE as int,
            );
        }
        r
    }

    /// Advance by `dt`: note whether the interval boundary was crossed, and
    /// wrap the phase back into the interval.
    pub fn update(&mut self, dt: i64)
        requires
            old(self).wf(),
            0 <= dt <= FIX_ONE * 16,
        ensures
            final(self).wf(),
            final(self).interval == old(self).interval,
            final(self).overflowed == (old(self).time + dt >= old(self).interval),
            final(self).time == (old(self).time + dt) % (old(self).interval as int),
    {
        let t: i64 = self.time + dt;
        self.overflowed = t >= self.interval;
        let m: u64 = (t as u64) % (self.interval as u64);
        proof {
            lemma_mod_bound(t as int, self.interval as int);
        }
        self.time = m as i64;
    }
}

} // verus!
