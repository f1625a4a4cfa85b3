//! Linear resampling between the inner simulation rate and the host rate.
//! The caller asks `steps_needed` how many inner samples the next output
//! needs, produces them, and hands them to `process`.

use vstd::prelude::*;
use vstd::arithmetic::div_mod::*;
use crate::fixed::{
    fdiv, fix_div, fix_mul, flerp, fmul, iabs, lemma_fmul_bound, lemma_sdiv_abs, lemma_udiv_bound,
    lerp_fix, FIX_ONE,
};

verus! {

/// Largest magnitude accepted for one input sample: four times full scale.
pub const SAMPLE_LIMIT: i64 = 262144;

/// Safety window for the downsampler's accumulators.
pub const ACC_LIMIT: i64 = 0x4000000;

/// Sum of a sequence of samples.
pub open spec fn sum_seq(s: Seq<i64>) -> int
    decreases s.len(),
{
    if s.len() == 0 {
        0
    } else {
        sum_seq(s.drop_last()) + s.last()
    }
}

/// Exactly what `process` establishes, as a predicate over the resampler
/// before and after, the consumed inner samples, and the produced output.
pub open spec fn resample_process_rel(
    pre: Resample,
    post: Resample,
    samples: Seq<i64>,
    out: int,
) -> bool {
    &&& post.wf()
    &&& samples.len() == pre.spec_needed()
    &&& (pre.algo is Identity ==> post.algo is Identity && out == samples[0])
    &&& (pre.algo is UpSample ==> {
        let k = pre.spec_needed();
        let ipo = pre.algo->UpSample_in_per_out;
        let nst = pre.algo->UpSample_next_sample_time + ipo - k * FIX_ONE;
        let prev = if k == 0 {
            pre.algo->UpSample_prev_sample
        } else {
            pre.algo->UpSample_next_sample
        };
        let next = if k == 0 {
            pre.algo->UpSample_next_sample
        } else {
            samples[0]
        };
        &&& post.algo == (Algo::UpSample {
            in_per_out: ipo,
            prev_sample: prev,
            next_sample: next,
            next_sample_time: nst as i64,
        })
        &&& out == flerp(prev as int, next as int, nst)
        &&& -SAMPLE_LIMIT <= out <= SAMPLE_LIMIT
    })
    &&& (pre.algo is DownSample ==> {
        let k = pre.spec_needed();
        let ipo = pre.algo->DownSample_in_per_out;
        let opi = pre.algo->DownSample_out_per_in;
        let mid = pre.algo->DownSample_time + ipo - (k - 1) * FIX_ONE;
        let last = samples[k - 1];
        &&& post.algo == (Algo::DownSample {
            in_per_out: ipo,
            out_per_in: opi,
            left_value: (pre.algo->DownSample_right_value + sum_seq(samples.drop_last()) + fmul(
                last as int,
                mid,
            )) as i64,
            right_value: fmul(last as int, (FIX_ONE as int) - mid) as i64,
            time: (pre.algo->DownSample_time + ipo - k * FIX_ONE) as i64,
        })
        &&& out == fmul(pre.algo->DownSample_left_value as int, opi as int)
    })
}

pub enum Algo {
    UpSample {
        in_per_out: i64,
        prev_sample: i64,
        next_sample: i64,
        next_sample_time: i64,
    },
    DownSample {
        in_per_out: i64,
        out_per_in: i64,
        left_value: i64,
        right_value: i64,
        time: i64,
    },
    Identity,
}

pub struct Resample {
    pub algo: Algo,
}

impl Resample {
    pub open spec fn wf(self) -> bool {
        match self.algo {
            Algo::UpSample { in_per_out, prev_sample, next_sample, next_sample_time } => {
                &&& 1 <= in_per_out < FIX_ONE
                &&& 0 <= next_sample_time <= FIX_ONE
                &&& -SAMPLE_LIMIT <= prev_sample <= SAMPLE_LIMIT
                &&& -SAMPLE_LIMIT <= next_sample <= SAMPLE_LIMIT
            },
            Algo::DownSample { in_per_out, out_per_in, left_value, right_value, time } => {
                &&& FIX_ONE <= in_per_out <= 64 * FIX_ONE
                &&& 1 <= out_per_in <= FIX_ONE
                &&& -ACC_LIMIT <= left_value <= ACC_LIMIT
                &&& -SAMPLE_LIMIT <= right_value <= SAMPLE_LIMIT
                &&& -FIX_ONE <= time < 0
            },
            Algo::Identity => true,
        }
    }

    /// How many fresh inner samples the next `process` call consumes.
    pub open spec fn spec_needed(self) -> int {
        match self.algo {
            Algo::UpSample { in_per_out, next_sample_time, .. } => (next_sample_time
                + in_per_out) / (FIX_ONE as int),
            Algo::DownSample { in_per_out, time, .. } => (time + in_per_out) / (FIX_ONE as int)
                + 1,
            Algo::Identity => 1,
        }
    }

    /// Choose the resampling mode from the two rates (fixed point, hertz).
    /// Rates further apart than a factor of 64 are rejected.
    pub fn new(input_sample_rate: i64, output_sample_rate: i64) -> (r: Resample)
        requires
            FIX_ONE <= input_sample_rate <= 0x400000000,
            FIX_ONE <= output_sample_rate <= 0x400000000,
            input_sample_rate <= 64 * output_sample_rate,
            output_sample_rate <= 64 * input_sample_rate,
        ensures
            r.wf(),
            input_sample_rate < output_sample_rate ==> r.algo == (Algo::UpSample {
                in_per_out: fdiv(input_sample_rate as int, output_sample_rate as int) as i64,
                prev_sample: 0i64,
                next_sample: 0i64,
                next_sample_time: FIX_ONE as i64,
            }),
            input_sample_rate > output_sample_rate ==> r.algo == (Algo::DownSample {
                in_per_out: fdiv(input_sample_rate as int, output_sample_rate as int) as i64,
                out_per_in: fdiv(output_sample_rate as int, input_sample_rate as int) as i64,
                left_value: 0i64,
                right_value: 0i64,
                time: -FIX_ONE as i64,
            }),
            input_sample_rate == output_sample_rate ==> r.algo == Algo::Identity,
    {
        if input_sample_rate < output_sample_rate {
            let ipo: i64 = fix_div(input_sample_rate, output_sample_rate);
            proof {
                lemma_sdiv_abs(
                    (input_sample_rate as int) * (FIX_ONE as int),
                    output_sample_rate as int,
                );
                lemma_ratio_bounds(input_sample_rate as int, output_sample_rate as int);
            }
            Resample {
                algo: Algo::UpSample {
                    in_per_out: ipo,
                    prev_sample: 0,
                    next_sample: 0,
                    next_sample_time: FIX_ONE,
                },
            }
        } else if input_sample_rate > output_sample_rate {
            let ipo: i64 = fix_div(input_sample_rate, output_sample_rate);
            let opi: i64 = fix_div(output_sample_rate, input_sample_rate);
            proof {
                lemma_sdiv_abs(
                    (input_sample_rate as int) * (FIX_ONE as int),
                    output_sample_rate as int,
                );
                lemma_sdiv_abs(
                    (output_sample_rate as int) * (FIX_ONE as int),
                    input_sample_rate as int,
                );
                lemma_ratio_bounds(output_sample_rate as int, input_sample_rate as int);
                lemma_ratio_ge_one(input_sample_rate as int, output_sample_rate as int);
                lemma_ratio_le_64(input_sample_rate as int, output_sample_rate as int);
            }
            Resample {
                algo: Algo::DownSample {
                    in_per_out: ipo,
                    out_per_in: opi,
                    left_value: 0,
                    right_value: 0,
                    time: -FIX_ONE,
                },
            }
        } else {
            Resample { algo: Algo::Identity }
        }
    }

    /// How many fresh inner samples the next output needs; exact per
    /// `spec_needed`, and at most 65.
    pub fn steps_needed(&self) -> (k: usize)
        requires
            self.wf(),
        ensures
            k == self.spec_needed(),
            k <= 65,
    {
        match &self.algo {
            Algo::UpSample { in_per_out, next_sample_time, .. } => {
                let t: i64 = *next_sample_time + *in_per_out;
                proof {
                    lemma_fundamental_div_mod(t as int, FIX_ONE as int);
                    lemma_mod_bound(t as int, FIX_ONE as int);
                    lemma_div_pos_is_pos(t as int, FIX_ONE as int);
                    assert((t as int) / (FIX_ONE as int) * (FIX_ONE as int) <= t as int);
                }
                let k: u64 = (t as u64) / (FIX_ONE as u64);
                k as usize
            },
            Algo::DownSample { in_per_out, time, .. } => {
                let t: i64 = *time + *in_per_out;
                proof {
                    lemma_fundamental_div_mod(t as int, FIX_ONE as int);
                    lemma_mod_bound(t as int, FIX_ONE as int);
                    lemma_div_pos_is_pos(t as int, FIX_ONE as int);
                    assert((t as int) / (FIX_ONE as int) * (FIX_ONE as int) <= t as int);
                }
                let k: u64 = (t as u64) / (FIX_ONE as u64);
                (k as usize) + 1
            },
            Algo::Identity => 1,
        }
    }

    /// Consume exactly `steps_needed` fresh inner samples and produce one
    /// output sample.
    pub fn process(&mut self, samples: &Vec<i64>) -> (out: i64)
        requires
            old(self).wf(),
            samples@.len() == old(self).spec_needed(),
            forall|i: int|
                0 <= i < samples@.len() ==> -SAMPLE_LIMIT <= #[trigger] samples@[i]
                    <= SAMPLE_LIMIT,
        ensures
            resample_process_rel(*old(self), *final(self), samples@, out as int),
            final(self).wf(),
            old(self).algo is Identity ==> final(self).algo is Identity && out == samples@[0],
            old(self).algo is UpSample ==> {
                let k = old(self).spec_needed();
                let ipo = old(self).algo->UpSample_in_per_out;
                let nst = old(self).algo->UpSample_next_sample_time + ipo - k * FIX_ONE;
                let prev = if k == 0 {
                    old(self).algo->UpSample_prev_sample
                } else {
                    old(self).algo->UpSample_next_sample
                };
                let next = if k == 0 {
                    old(self).algo->UpSample_next_sample
                } else {
                    samples@[0]
                };
                &&& final(self).algo == (Algo::UpSample {
                    in_per_out: ipo,
                    prev_sample: prev,
                    next_sample: next,
                    next_sample_time: nst as i64,
                })
                &&& out == flerp(prev as int, next as int, nst)
                &&& -SAMPLE_LIMIT <= out <= SAMPLE_LIMIT
            },
            old(self).algo is DownSample ==> {
                let k = old(self).spec_needed();
                let ipo = old(self).algo->DownSample_in_per_out;
                let opi = old(self).algo->DownSample_out_per_in;
                let mid = old(self).algo->DownSample_time + ipo - (k - 1) * FIX_ONE;
                let last = samples@[k - 1];
                &&& final(self).algo == (Algo::DownSample {
                    in_per_out: ipo,
                    out_per_in: opi,
                    left_value: (old(self).algo->DownSample_right_value + sum_seq(
                        samples@.drop_last(),
                    ) + fmul(last as int, mid)) as i64,
                    right_value: fmul(last as int, (FIX_ONE as int) - mid) as i64,
                    time: (old(self).algo->DownSample_time + ipo - k * FIX_ONE) as i64,
                })
                &&& out == fmul(old(self).algo->DownSample_left_value as int, opi as int)
            },
    {
        match &mut self.algo {
            Algo::UpSample { in_per_out, prev_sample, next_sample, next_sample_time } => {
                let t: i64 = *next_sample_time + *in_per_out;
                proof {
                    lemma_fundamental_div_mod(t as int, FIX_ONE as int);
                    lemma_mod_bound(t as int, FIX_ONE as int);
                    lemma_div_pos_is_pos(t as int, FIX_ONE as int);
                }
                if t >= FIX_ONE {
                    proof {
                        lemma_fundamental_div_mod_converse(
                            t as int,
                            FIX_ONE as int,
                            1,
                            t - FIX_ONE,
                        );
                    }
                    *prev_sample = *next_sample;
                    *next_sample = samples[0];
                    *next_sample_time = t - FIX_ONE;
                } else {
                    proof {
                        lemma_small_div_converse(t as int, FIX_ONE as int);
                    }
                    *next_sample_time = t;
                }
                lerp_fix(*prev_sample, *next_sample, *next_sample_time)
            },
            Algo::DownSample { in_per_out, out_per_in, left_value, right_value, time } => {
                let y: i64 = *left_value;
                proof {
                    lemma_fmul_bound(y as int, *out_per_in as int, ACC_LIMIT as int, FIX_ONE as int);
                }
                let out: i64 = fix_mul(y, *out_per_in);
                let mut t: i64 = *time + *in_per_out;
                let ghost k: int = old(self).spec_needed();
                proof {
                    lemma_fundamental_div_mod(t as int, FIX_ONE as int);
                    lemma_mod_bound(t as int, FIX_ONE as int);
                    lemma_div_pos_is_pos(t as int, FIX_ONE as int);
                    lemma_udiv_bound(t as int, FIX_ONE as int, 64);
                }
                let mut acc: i64 = *right_value;
                let mut i: usize = 0;
                let ghost whole: int = k - 1;
                proof {
                    assert(samples@.subrange(0, 0) =~= Seq::<i64>::empty());
                }
                while i < samples.len() - 1
                    invariant
                        0 <= i <= whole,
                        whole == samples@.len() - 1,
                        whole <= 64,
                        t == old(self).algo->DownSample_time + old(self).algo->DownSample_in_per_out
                            - i * FIX_ONE,
                        acc == old(self).algo->DownSample_right_value + sum_seq(
                            samples@.subrange(0, i as int),
                        ),
                        iabs(acc as int) <= SAMPLE_LIMIT + (i as int) * SAMPLE_LIMIT,
                        samples@.len() == whole + 1,
                        forall|j: int|
                            0 <= j < samples@.len() ==> -SAMPLE_LIMIT <= #[trigger] samples@[j]
                                <= SAMPLE_LIMIT,
                        t >= FIX_ONE * (whole - i),
                        t <= 65 * FIX_ONE,
                    decreases whole - i,
                {
                    let ghost pre: Seq<i64> = samples@.subrange(0, i as int);
                    acc = acc + samples[i];
                    t = t - FIX_ONE;
                    proof {
                        assert(samples@.subrange(0, i as int + 1).drop_last() =~= pre);
                    }
                    i = i + 1;
                }
                proof {
                    assert(samples@.subrange(0, whole) =~= samples@.drop_last());
                    lemma_needed_mid(
                        old(self).algo->DownSample_time as int,
                        old(self).algo->DownSample_in_per_out as int,
                        k,
                    );
                }
                let last: i64 = samples[samples.len() - 1];
                proof {
                    lemma_fmul_bound(last as int, t as int, SAMPLE_LIMIT as int, FIX_ONE as int);
                    lemma_fmul_bound(
                        last as int,
                        (FIX_ONE - t) as int,
                        SAMPLE_LIMIT as int,
                        FIX_ONE as int,
                    );
                }
                *left_value = acc + fix_mul(last, t);
                *right_value = fix_mul(last, FIX_ONE - t);
                *time = t - FIX_ONE;
                out
            },
            Algo::Identity => samples[0],
        }
    }
}

/// Constant-signal transparency of the upsampler: once both stored samples
/// hold the constant `c`, the interpolated output is exactly `c` for any
/// interpolation position, and the stored samples stay `c` whenever the
/// fresh input is `c` as well (the identity mode forwards its input
/// unchanged by `process`'s contract, so a constant input settles to a
/// constant output in both paths).
pub proof fn lemma_upsample_constant(c: int, t: int)
    ensures
        flerp(c, c, t) == c,
{
    assert((c - c) * t == 0) by (nonlinear_arith);
    lemma_div_of0(FIX_ONE as int);
}

/// With `k` pulls scheduled, the fractional tail `time + ipo - (k-1)` of the
/// accumulator lies inside one sample period.
proof fn lemma_needed_mid(time: int, ipo: int, k: int)
    requires
        k == (time + ipo) / (FIX_ONE as int) + 1,
        time + ipo >= 0,
    ensures
        0 <= time + ipo - (k - 1) * (FIX_ONE as int) < FIX_ONE,
{
    lemma_fundamental_div_mod(time + ipo, FIX_ONE as int);
    lemma_mod_bound(time + ipo, FIX_ONE as int);
}

/// For `a < b`, the fixed-point ratio `a/b` is below one; with the rates no
/// more than a factor 64 apart it is also at least one 64th.
proof fn lemma_ratio_bounds(a: int, b: int)
    requires
        FIX_ONE <= a,
        a < b,
        b <= 64 * a,
    ensures
        1 <= fdiv(a, b) < FIX_ONE,
{
    let s: int = FIX_ONE as int;
    lemma_sdiv_abs(a * s, b);
    assert(a * s <= (b - 1) * s) by (nonlinear_arith)
        requires
            a <= b - 1,
            s > 0,
    ;
    assert((b - 1) * s == (s - 1) * b + (b - s)) by (nonlinear_arith);
    lemma_fundamental_div_mod_converse((b - 1) * s, b, s - 1, b - s);
    lemma_div_is_ordered(a * s, (b - 1) * s, b);
    assert(a * s >= b) by (nonlinear_arith)
        requires
            1 <= a,
            b <= 64 * a,
            s >= 64,
    ;
    lemma_div_is_ordered(b, a * s, b);
    lemma_div_by_self(b);
}

/// For `a > b`, the fixed-point ratio `a/b` is at least one.
proof fn lemma_ratio_ge_one(a: int, b: int)
    requires
        1 <= b < a,
    ensures
        fdiv(a, b) >= FIX_ONE,
{
    let s: int = FIX_ONE as int;
    lemma_sdiv_abs(a * s, b);
    assert(a * s >= b * s) by (nonlinear_arith)
        requires
            a >= b,
            s > 0,
    ;
    lemma_div_is_ordered(b * s, a * s, b);
    lemma_div_multiples_vanish(s, b);
}

/// With the rates no more than a factor 64 apart, the ratio is at most 64.
proof fn lemma_ratio_le_64(a: int, b: int)
    requires
        1 <= b < a,
        a <= 64 * b,
    ensures
        fdiv(a, b) <= 64 * FIX_ONE,
{
    let s: int = FIX_ONE as int;
    lemma_sdiv_abs(a * s, b);
    assert(a * s <= b * (64 * s)) by (nonlinear_arith)
        requires
            a <= 64 * b,
            s > 0,
    ;
    lemma_udiv_bound(a * s, b, 64 * s);
}

} // verus!
