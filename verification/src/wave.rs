//! The tract's wave state: right- and left-going waves for mouth and nose,
//! stepped by a scattering-junction solver, with transient (plosive) and
//! turbulence (fricative) injection. Every stored wave sample is clamped to
//! `[-1, 1]` after each solver step.

use vstd::prelude::*;
use crate::fixed::{
    clamp_fix, div_pos, fclamp, fix_mul, flerp, fmul, lemma_fmul_bound, lerp_fix, FIX_ONE,
};
use crate::shape::{OtherParams, Reflections, Turbulence, MOUTH_CELLS, NOSE_CELLS};

verus! {

/// Wave samples may briefly exceed full scale between injection and the
/// next solver step; they are clamped at twice full scale there.
pub const INJECT_LIMIT: i64 = 131072;

/// Bound on the solver's scratch rows.
pub const SCRATCH_LIMIT: i64 = 2097152;

/// A short decaying impulse released when an occlusion opens. Its delay and
/// age are counted in tract steps; `step200` below converts an age to the
/// decay exponent.
#[derive(Clone, Copy)]
pub struct Transient {
    pub position: usize,
    pub delay: i64,
    pub time_alive: i64,
    pub strength: i64,
}

impl Transient {
    pub open spec fn wf(self) -> bool {
        &&& self.position < MOUTH_CELLS
        &&& 0 <= self.delay <= 0x100000
        &&& 0 <= self.time_alive <= 0x200000
        &&& 0 <= self.strength <= FIX_ONE
    }
}

/// The impulse envelope `2^(-y)` for a fixed-point exponent `y`: a
/// whole-power shift with linear interpolation inside each octave, floored
/// at zero after sixteen octaves.
pub open spec fn decay_factor(y: int) -> int {
    let yi = y / (FIX_ONE as int);
    let yf = y % (FIX_ONE as int);
    if yi >= 16 {
        0
    } else {
        ((FIX_ONE as int) - fmul(32768, yf)) / (vstd::arithmetic::power2::pow2(
            yi as nat,
        ) as int)
    }
}

proof fn lemma_pow2_bounds(n: nat)
    requires
        n <= 16,
    ensures
        1 <= vstd::arithmetic::power2::pow2(n) <= 65536,
{
    vstd::arithmetic::power2::lemma2_to64();
    vstd::arithmetic::power::lemma_pow_positive(2, n);
    if n < 16 {
        vstd::arithmetic::power2::lemma_pow2_strictly_increases(n, 16);
    }
}

/// The injection amplitude of a transient: its strength under the decay
/// envelope, whose exponent is the age in steps times the per-step exponent
/// increment.
pub open spec fn transient_amplitude(strength: int, time_alive: int, step200: int) -> int {
    fmul(strength, decay_factor(time_alive * step200))
}

/// The decay envelope, executable; exact per `decay_factor` and inside
/// `[0, FIX_ONE]`.
pub fn decay_exec(y: i64) -> (r: i64)
    requires
        0 <= y <= 0x10000000000,
    ensures
        r == decay_factor(y as int),
        0 <= r <= FIX_ONE,
{
    let yi: i64 = div_pos(y, FIX_ONE);
    let yf: i64 = y - yi * FIX_ONE;
    proof {
        vstd::arithmetic::div_mod::lemma_fundamental_div_mod(y as int, FIX_ONE as int);
        vstd::arithmetic::div_mod::lemma_mod_bound(y as int, FIX_ONE as int);
    }
    if yi >= 16 {
        0
    } else {
        proof {
            lemma_fmul_bound(32768, yf as int, 32768, FIX_ONE as int);
            crate::fixed::lemma_sdiv_abs(32768 * (yf as int), FIX_ONE as int);
            crate::fixed::lemma_udiv_bound(32768 * (yf as int), FIX_ONE as int, 32768);
            assert(0 <= 32768 * (yf as int) <= (FIX_ONE as int) * 32768) by (nonlinear_arith)
                requires
                    0 <= yf <= FIX_ONE,
                    FIX_ONE == 65536,
            ;
            vstd::arithmetic::div_mod::lemma_div_pos_is_pos(32768 * (yf as int), FIX_ONE as int);
            lemma_pow2_bounds(yi as nat);
        }
        let num: i64 = FIX_ONE - fix_mul(32768, yf);
        proof {
            vstd::arithmetic::power2::lemma2_to64();
        }
        let mut denom: i64 = 1;
        let mut k: i64 = 0;
        while k < yi
            invariant
                0 <= k <= yi < 16,
                denom == vstd::arithmetic::power2::pow2(k as nat),
                1 <= denom <= 65536,
            decreases yi - k,
        {
            proof {
                lemma_pow2_bounds((k + 1) as nat);
                vstd::arithmetic::power2::lemma_pow2_unfold((k + 1) as nat);
            }
            denom = denom * 2;
            k = k + 1;
        }
        div_pos(num, denom)
    }
}

/// The whole wave state of the tract.
pub struct State {
    pub r: Vec<i64>,
    pub l: Vec<i64>,
    pub r_: Vec<i64>,
    pub l_: Vec<i64>,
    pub nose_r: Vec<i64>,
    pub nose_l: Vec<i64>,
    pub nose_r_: Vec<i64>,
    pub nose_l_: Vec<i64>,
    pub transients: Vec<Transient>,
    pub turbulences: Vec<Turbulence>,
}

impl State {
    pub open spec fn wf(self) -> bool {
        &&& self.r@.len() == MOUTH_CELLS
        &&& self.l@.len() == MOUTH_CELLS
        &&& self.r_@.len() == MOUTH_CELLS
        &&& self.l_@.len() == MOUTH_CELLS
        &&& self.nose_r@.len() == NOSE_CELLS
        &&& self.nose_l@.len() == NOSE_CELLS
        &&& self.nose_r_@.len() == NOSE_CELLS
        &&& self.nose_l_@.len() == NOSE_CELLS
        &&& forall|i: int|
            0 <= i < MOUTH_CELLS ==> -INJECT_LIMIT <= #[trigger] self.r@[i] <= INJECT_LIMIT
        &&& forall|i: int|
            0 <= i < MOUTH_CELLS ==> -INJECT_LIMIT <= #[trigger] self.l@[i] <= INJECT_LIMIT
        &&& forall|i: int|
            0 <= i < NOSE_CELLS ==> -INJECT_LIMIT <= #[trigger] self.nose_r@[i] <= INJECT_LIMIT
        &&& forall|i: int|
            0 <= i < NOSE_CELLS ==> -INJECT_LIMIT <= #[trigger] self.nose_l@[i] <= INJECT_LIMIT
        &&& forall|i: int|
            0 <= i < MOUTH_CELLS ==> -SCRATCH_LIMIT <= #[trigger] self.r_@[i] <= SCRATCH_LIMIT
        &&& forall|i: int|
            0 <= i < MOUTH_CELLS ==> -SCRATCH_LIMIT <= #[trigger] self.l_@[i] <= SCRATCH_LIMIT
        &&& forall|i: int|
            0 <= i < NOSE_CELLS ==> -SCRATCH_LIMIT <= #[trigger] self.nose_r_@[i] <= SCRATCH_LIMIT
        &&& forall|i: int|
            0 <= i < NOSE_CELLS ==> -SCRATCH_LIMIT <= #[trigger] self.nose_l_@[i] <= SCRATCH_LIMIT
        &&& forall|i: int| 0 <= i < self.transients@.len() ==> (#[trigger] self.transients@[i]).wf()
        &&& forall|i: int|
            0 <= i < self.turbulences@.len() ==> (#[trigger] self.turbulences@[i]).wf()
                && FIX_ONE <= (self.turbulences@[i]).index <= (MOUTH_CELLS as int - 1) * (
            FIX_ONE as int)
        &&& self.transients@.len() <= 64
        &&& self.turbulences@.len() <= 64
    }

    /// All waves at rest.
    pub fn new(length: usize, nose_length: usize) -> (r: State)
        requires
            length == MOUTH_CELLS,
            nose_length == NOSE_CELLS,
        ensures
            r.wf(),
            r.r@ == Seq::new(MOUTH_CELLS as nat, |i: int| 0i64),
            r.l@ == Seq::new(MOUTH_CELLS as nat, |i: int| 0i64),
            r.nose_r@ == Seq::new(NOSE_CELLS as nat, |i: int| 0i64),
            r.nose_l@ == Seq::new(NOSE_CELLS as nat, |i: int| 0i64),
            r.transients@.len() == 0,
            r.turbulences@.len() == 0,
    {
        let r: Vec<i64> = zero_vec(length);
        let l: Vec<i64> = zero_vec(length);
        let r_: Vec<i64> = zero_vec(length);
        let l_: Vec<i64> = zero_vec(length);
        let nose_r: Vec<i64> = zero_vec(nose_length);
        let nose_l: Vec<i64> = zero_vec(nose_length);
        let nose_r_: Vec<i64> = zero_vec(nose_length);
        let nose_l_: Vec<i64> = zero_vec(nose_length);
        State {
            r,
            l,
            r_,
            l_,
            nose_r,
            nose_l,
            nose_r_,
            nose_l_,
            transients: Vec::new(),
            turbulences: Vec::new(),
        }
    }

    /// Let every pending transient act on the mouth waves, then drop the
    /// ones whose lifetime (a fifth of a second) is over.
    pub fn process_transients(&mut self, step200: i64, life: i64)
        requires
            old(self).wf(),
            0 <= step200 <= FIX_ONE,
            0 <= life <= 0x100000,
        ensures
            final(self).wf(),
            ({
                let f = transients_fold(
                    old(self).r@,
                    old(self).l@,
                    old(self).transients@,
                    step200 as int,
                );
                &&& final(self).r@ == f.0
                &&& final(self).l@ == f.1
                &&& final(self).transients@ == f.2.filter(|t: Transient| t.time_alive <= life)
            }),
            final(self).nose_r@ == old(self).nose_r@,
            final(self).nose_l@ == old(self).nose_l@,
            final(self).r_@ == old(self).r_@,
            final(self).l_@ == old(self).l_@,
            final(self).nose_r_@ == old(self).nose_r_@,
            final(self).nose_l_@ == old(self).nose_l_@,
            final(self).turbulences@ == old(self).turbulences@,
    {
        let ghost trs: Seq<Transient> = self.transients@;
        let mut upd: Vec<Transient> = Vec::new();
        let mut i: usize = 0;
        proof {
            assert(trs.subrange(0, 0) =~= Seq::<Transient>::empty());
        }
        while i < self.transients.len()
            invariant
                i <= trs.len(),
                trs.len() <= 64,
                self.transients@ == trs,
                trs == old(self).transients@,
                self.turbulences@ == old(self).turbulences@,
                self.nose_r@ == old(self).nose_r@,
                self.nose_l@ == old(self).nose_l@,
                self.r_@ == old(self).r_@,
                self.l_@ == old(self).l_@,
                self.nose_r_@ == old(self).nose_r_@,
                self.nose_l_@ == old(self).nose_l_@,
                old(self).wf(),
                0 <= step200 <= FIX_ONE,
                self.r@.len() == MOUTH_CELLS,
                self.l@.len() == MOUTH_CELLS,
                forall|j: int|
                    0 <= j < MOUTH_CELLS ==> -INJECT_LIMIT <= #[trigger] self.r@[j]
                        <= INJECT_LIMIT,
                forall|j: int|
                    0 <= j < MOUTH_CELLS ==> -INJECT_LIMIT <= #[trigger] self.l@[j]
                        <= INJECT_LIMIT,
                upd@.len() == i,
                forall|j: int| 0 <= j < i ==> (#[trigger] upd@[j]).wf(),
                ({
                    let f = transients_fold(
                        old(self).r@,
                        old(self).l@,
                        trs.subrange(0, i as int),
                        step200 as int,
                    );
                    self.r@ == f.0 && self.l@ == f.1 && upd@ == f.2
                }),
            decreases trs.len() - i,
        {
            let ghost fpre = transients_fold(
                old(self).r@,
                old(self).l@,
                trs.subrange(0, i as int),
                step200 as int,
            );
            let t: Transient = self.transients[i];
            proof {
                assert(t == old(self).transients@[i as int]);
                assert(t.wf());
            }
            if t.delay > 0 {
                upd.push(
                    Transient {
                        delay: t.delay - 1,
                        ..t
                    },
                );
            } else {
                proof {
                    assert(0 <= (t.time_alive as int) * (step200 as int) <= 0x10000000000)
                        by (nonlinear_arith)
                        requires
                            0 <= t.time_alive <= 0x200000,
                            0 <= step200 <= 65536,
                    ;
                }
                let env: i64 = decay_exec(t.time_alive * step200);
                proof {
                    lemma_fmul_bound(t.strength as int, env as int, FIX_ONE as int, FIX_ONE as int);
                    assert((t.strength as int) * (env as int) >= 0) by (nonlinear_arith)
                        requires
                            t.strength >= 0,
                            env >= 0,
                    ;
                    crate::fixed::lemma_sdiv_abs((t.strength as int) * (env as int), FIX_ONE as int);
                    vstd::arithmetic::div_mod::lemma_div_pos_is_pos(
                        (t.strength as int) * (env as int),
                        FIX_ONE as int,
                    );
                }
                let amp: i64 = fix_mul(t.strength, env);
                let half: i64 = div_pos(amp, 2);
                let pos: usize = t.position;
                let rv: i64 = self.r[pos];
                self.r.set(pos, clamp_fix(rv + half, -INJECT_LIMIT, INJECT_LIMIT));
                let lv: i64 = self.l[pos];
                self.l.set(pos, clamp_fix(lv + half, -INJECT_LIMIT, INJECT_LIMIT));
                upd.push(
                    Transient {
                        time_alive: clamp_fix(t.time_alive + 1, 0, 0x200000),
                        ..t
                    },
                );
            }
            proof {
                assert(trs.subrange(0, i as int + 1).drop_last() =~= trs.subrange(0, i as int));
                assert(trs.subrange(0, i as int + 1).last() == trs[i as int]);
                let fpost = transients_fold(
                    old(self).r@,
                    old(self).l@,
                    trs.subrange(0, i as int + 1),
                    step200 as int,
                );
                assert(fpost.0 == transient_step(fpre.0, fpre.1, trs[i as int], step200 as int).0);
            }
            i = i + 1;
        }
        proof {
            assert(trs.subrange(0, trs.len() as int) =~= trs);
        }
        let mut kept: Vec<Transient> = Vec::new();
        let mut i: usize = 0;
        proof {
            assert(upd@.subrange(0, 0) =~= Seq::<Transient>::empty());
            assert(Seq::<Transient>::empty().filter(|t: Transient| t.time_alive <= life)
                =~= Seq::<Transient>::empty()) by {
                reveal(Seq::filter);
            }
        }
        while i < upd.len()
            invariant
                i <= upd@.len(),
                upd@.len() <= 64,
                forall|j: int| 0 <= j < upd@.len() ==> (#[trigger] upd@[j]).wf(),
                kept@ == upd@.subrange(0, i as int).filter(|t: Transient| t.time_alive <= life),
                kept@.len() <= i,
                forall|j: int| 0 <= j < kept@.len() ==> (#[trigger] kept@[j]).wf(),
            decreases upd@.len() - i,
        {
            let t: Transient = upd[i];
            let ghost pre: Seq<Transient> = upd@.subrange(0, i as int);
            let ghost post: Seq<Transient> = upd@.subrange(0, i as int + 1);
            proof {
                assert(post.drop_last() =~= pre);
                assert(post.last() == t);
                reveal(Seq::filter);
            }
            if t.time_alive <= life {
                kept.push(t);
            }
            i = i + 1;
        }
        proof {
            assert(upd@.subrange(0, upd@.len() as int) =~= upd@);
        }
        self.transients = kept;
    }

    /// Let every turbulence source breathe (intensity attack or release)
    /// and inject its filtered noise just ahead of its constriction, then
    /// drop sources that are off and fully faded out.
    pub fn process_turbulence_noise(&mut self, istep: i64, turbulence_noise: i64)
        requires
            old(self).wf(),
            0 <= istep <= FIX_ONE,
            -524288 <= turbulence_noise <= 524288,
        ensures
            final(self).wf(),
            ({
                let f = turbulences_fold(
                    old(self).r@,
                    old(self).l@,
                    old(self).turbulences@,
                    istep as int,
                    turbulence_noise as int,
                );
                &&& final(self).r@ == f.0
                &&& final(self).l@ == f.1
                &&& final(self).turbulences@ == f.2.filter(
                    |t: Turbulence| t.on || t.intensity > 0,
                )
            }),
            final(self).nose_r@ == old(self).nose_r@,
            final(self).nose_l@ == old(self).nose_l@,
            final(self).r_@ == old(self).r_@,
            final(self).l_@ == old(self).l_@,
            final(self).nose_r_@ == old(self).nose_r_@,
            final(self).nose_l_@ == old(self).nose_l_@,
            final(self).transients@ == old(self).transients@,
    {
        let ghost tbs: Seq<Turbulence> = self.turbulences@;
        let mut upd: Vec<Turbulence> = Vec::new();
        let mut i: usize = 0;
        proof {
            assert(tbs.subrange(0, 0) =~= Seq::<Turbulence>::empty());
        }
        while i < self.turbulences.len()
            invariant
                i <= tbs.len(),
                tbs.len() <= 64,
                self.turbulences@ == tbs,
                tbs == old(self).turbulences@,
                self.transients@ == old(self).transients@,
                self.nose_r@ == old(self).nose_r@,
                self.nose_l@ == old(self).nose_l@,
                self.r_@ == old(self).r_@,
                self.l_@ == old(self).l_@,
                self.nose_r_@ == old(self).nose_r_@,
                self.nose_l_@ == old(self).nose_l_@,
                old(self).wf(),
                0 <= istep <= FIX_ONE,
                -524288 <= turbulence_noise <= 524288,
                self.r@.len() == MOUTH_CELLS,
                self.l@.len() == MOUTH_CELLS,
                forall|j: int|
                    0 <= j < MOUTH_CELLS ==> -INJECT_LIMIT <= #[trigger] self.r@[j]
                        <= INJECT_LIMIT,
                forall|j: int|
                    0 <= j < MOUTH_CELLS ==> -INJECT_LIMIT <= #[trigger] self.l@[j]
                        <= INJECT_LIMIT,
                upd@.len() == i,
                forall|j: int|
                    0 <= j < i ==> (#[trigger] upd@[j]).wf() && FIX_ONE <= upd@[j].index <= (
                    MOUTH_CELLS as int - 1) * (FIX_ONE as int),
                ({
                    let f = turbulences_fold(
                        old(self).r@,
                        old(self).l@,
                        tbs.subrange(0, i as int),
                        istep as int,
                        turbulence_noise as int,
                    );
                    self.r@ == f.0 && self.l@ == f.1 && upd@ == f.2
                }),
            decreases tbs.len() - i,
        {
            let ghost fpre = turbulences_fold(
                old(self).r@,
                old(self).l@,
                tbs.subrange(0, i as int),
                istep as int,
                turbulence_noise as int,
            );
            let mut t: Turbulence = self.turbulences[i];
            proof {
                assert(t == old(self).turbulences@[i as int]);
                assert(t.wf());
                assert(FIX_ONE <= t.index <= (MOUTH_CELLS as int - 1) * (FIX_ONE as int));
            }
            t.update_intensity(istep);
            proof {
                lemma_fmul_bound(
                    t.strength as int,
                    t.intensity as int,
                    FIX_ONE as int,
                    FIX_ONE as int,
                );
            }
            let amp: i64 = fix_mul(t.strength, t.intensity);
            if amp != 0 {
                let posfix: i64 = t.index + FIX_ONE;
                let cell_i: i64 = div_pos(posfix, FIX_ONE);
                let delta: i64 = posfix - cell_i * FIX_ONE;
                proof {
                    vstd::arithmetic::div_mod::lemma_fundamental_div_mod(
                        posfix as int,
                        FIX_ONE as int,
                    );
                    vstd::arithmetic::div_mod::lemma_mod_bound(posfix as int, FIX_ONE as int);
                    assert((cell_i as int) * (FIX_ONE as int) <= posfix as int);
                    assert(cell_i <= 44);
                }
                if (cell_i as usize) + 1 < MOUTH_CELLS {
                    proof {
                        lemma_fmul_bound(turbulence_noise as int, amp as int, 524288, FIX_ONE as int);
                    }
                    let namp: i64 = fix_mul(turbulence_noise, amp);
                    proof {
                        lemma_fmul_bound(namp as int, ((FIX_ONE - delta)) as int, 524288, FIX_ONE as int);
                        lemma_fmul_bound(namp as int, delta as int, 524288, FIX_ONE as int);
                    }
                    let half0: i64 = half_exec(fix_mul(namp, FIX_ONE - delta));
                    let half1: i64 = half_exec(fix_mul(namp, delta));
                    let cell: usize = cell_i as usize;
                    let rv: i64 = self.r[cell];
                    self.r.set(cell, clamp_fix(rv + half0, -INJECT_LIMIT, INJECT_LIMIT));
                    let lv: i64 = self.l[cell];
                    self.l.set(cell, clamp_fix(lv + half0, -INJECT_LIMIT, INJECT_LIMIT));
                    let rv2: i64 = self.r[cell + 1];
                    self.r.set(cell + 1, clamp_fix(rv2 + half1, -INJECT_LIMIT, INJECT_LIMIT));
                    let lv2: i64 = self.l[cell + 1];
                    self.l.set(cell + 1, clamp_fix(lv2 + half1, -INJECT_LIMIT, INJECT_LIMIT));
                }
            }
            upd.push(t);
            proof {
                assert(tbs.subrange(0, i as int + 1).drop_last() =~= tbs.subrange(0, i as int));
                assert(tbs.subrange(0, i as int + 1).last() == tbs[i as int]);
            }
            i = i + 1;
        }
        proof {
            assert(tbs.subrange(0, tbs.len() as int) =~= tbs);
        }
        let mut kept: Vec<Turbulence> = Vec::new();
        let mut i: usize = 0;
        proof {
            assert(upd@.subrange(0, 0) =~= Seq::<Turbulence>::empty());
            assert(Seq::<Turbulence>::empty().filter(|t: Turbulence| t.on || t.intensity > 0)
                =~= Seq::<Turbulence>::empty()) by {
                reveal(Seq::filter);
            }
        }
        while i < upd.len()
            invariant
                i <= upd@.len(),
                upd@.len() <= 64,
                forall|j: int|
                    0 <= j < upd@.len() ==> (#[trigger] upd@[j]).wf() && FIX_ONE <= upd@[j].index
                        <= (MOUTH_CELLS as int - 1) * (FIX_ONE as int),
                kept@ == upd@.subrange(0, i as int).filter(|t: Turbulence| t.on || t.intensity > 0),
                kept@.len() <= i,
                forall|j: int|
                    0 <= j < kept@.len() ==> (#[trigger] kept@[j]).wf() && FIX_ONE
                        <= kept@[j].index <= (MOUTH_CELLS as int - 1) * (FIX_ONE as int),
            decreases upd@.len() - i,
        {
            let t: Turbulence = upd[i];
            let ghost pre: Seq<Turbulence> = upd@.subrange(0, i as int);
            let ghost post: Seq<Turbulence> = upd@.subrange(0, i as int + 1);
            proof {
                assert(post.drop_last() =~= pre);
                assert(post.last() == t);
                reveal(Seq::filter);
            }
            if t.on || t.intensity > 0 {
                kept.push(t);
            }
            i = i + 1;
        }
        proof {
            assert(upd@.subrange(0, upd@.len() as int) =~= upd@);
        }
        self.turbulences = kept;
    }
}

/// The block-interpolated reflection at mouth boundary `i`.
pub open spec fn lerp_refl(ra: Seq<i64>, rb: Seq<i64>, lambda: int, i: int) -> int {
    flerp(ra[i] as int, rb[i] as int, lambda)
}

/// The wave amount scattered at mouth boundary `i`.
pub open spec fn mouth_w(
    r: Seq<i64>,
    l: Seq<i64>,
    ra: Seq<i64>,
    rb: Seq<i64>,
    lambda: int,
    i: int,
) -> int {
    fmul(lerp_refl(ra, rb, lambda, i), (r[i] as int) + (l[i + 1] as int))
}

/// The scratch right-going mouth row after one solver pass: glottal feed at
/// the entrance, the three-way junction at the nose attachment, plain
/// scattering elsewhere.
pub open spec fn mouth_r_scratch(
    r: Seq<i64>,
    l: Seq<i64>,
    nose_l0: int,
    refl: Reflections,
    newr: Reflections,
    lambda: int,
    glottal: int,
    gr: int,
    i: int,
) -> int {
    if i == 0 {
        fmul(l[0] as int, gr) + glottal
    } else if i == 17 {
        let jr = flerp(refl.junction_right as int, newr.junction_right as int, lambda);
        fmul(jr, l[17] as int) + fmul((FIX_ONE as int) + jr, (r[16] as int) + nose_l0)
    } else {
        (r[i - 1] as int) - mouth_w(r, l, refl.mouth@, newr.mouth@, lambda, i - 1)
    }
}

/// The scratch left-going mouth row after one solver pass: lip reflection
/// at the far end, the junction beside the nose attachment, plain
/// scattering elsewhere.
pub open spec fn mouth_l_scratch(
    r: Seq<i64>,
    l: Seq<i64>,
    nose_l0: int,
    refl: Reflections,
    newr: Reflections,
    lambda: int,
    lip: int,
    i: int,
) -> int {
    if i == MOUTH_CELLS - 1 {
        fmul(r[MOUTH_CELLS - 1] as int, lip)
    } else if i == 16 {
        let jl = flerp(refl.junction_left as int, newr.junction_left as int, lambda);
        fmul(jl, r[16] as int) + fmul((FIX_ONE as int) + jl, nose_l0 + (l[17] as int))
    } else {
        (l[i + 1] as int) + mouth_w(r, l, refl.mouth@, newr.mouth@, lambda, i)
    }
}

/// The wave scattered into the nose at the branch junction.
pub open spec fn junction_nose_scratch(
    r: Seq<i64>,
    l: Seq<i64>,
    nose_l0: int,
    refl: Reflections,
    newr: Reflections,
    lambda: int,
) -> int {
    let jn = flerp(refl.junction_nose as int, newr.junction_nose as int, lambda);
    fmul(jn, nose_l0) + fmul((FIX_ONE as int) + jn, (l[17] as int) + (r[16] as int))
}

/// A scratch value after dissipation and the hard limiter: always in
/// `[-1, 1]`.
pub open spec fn faded(x: int, fade: int) -> int {
    fclamp(fmul(x, fade), -(FIX_ONE as int), FIX_ONE as int)
}

/// The wave amount scattered at nose boundary `i` (the first boundary uses
/// the block-interpolated coefficient handed in as `first`).
pub open spec fn nose_w(nose_r: Seq<i64>, nose_l: Seq<i64>, rn: Seq<i64>, first: int, i: int) -> int {
    if i == 0 {
        fmul(first, (nose_r[0] as int) + (nose_l[1] as int))
    } else {
        fmul(rn[i] as int, (nose_r[i] as int) + (nose_l[i + 1] as int))
    }
}

/// The scratch left-going nose row.
pub open spec fn nose_l_scratch(
    nose_r: Seq<i64>,
    nose_l: Seq<i64>,
    rn: Seq<i64>,
    first: int,
    lip: int,
    i: int,
) -> int {
    if i == NOSE_CELLS - 1 {
        fmul(nose_r[NOSE_CELLS - 1] as int, lip)
    } else {
        (nose_l[i + 1] as int) + nose_w(nose_r, nose_l, rn, first, i)
    }
}

/// The scratch right-going nose row; its first cell was already filled by
/// the mouth pass at the branch junction.
pub open spec fn nose_r_scratch(
    nose_r: Seq<i64>,
    nose_l: Seq<i64>,
    junction_in: int,
    rn: Seq<i64>,
    first: int,
    i: int,
) -> int {
    if i == 0 {
        junction_in
    } else {
        (nose_r[i - 1] as int) - nose_w(nose_r, nose_l, rn, first, i - 1)
    }
}

impl State {
    /// One scattering pass over the mouth: feed the glottal sample in,
    /// scatter at every boundary and the nose junction, then fade and clamp
    /// every stored wave sample into `[-1, 1]`. Returns the lip output.
    pub fn process_mouth(
        &mut self,
        params: &OtherParams,
        reflections: &Reflections,
        new_reflections: &Reflections,
        lambda: i64,
        glottal_output: i64,
    ) -> (lip: i64)
        requires
            old(self).wf(),
            params.wf(),
            reflections.wf(),
            new_reflections.wf(),
            0 <= lambda <= FIX_ONE,
            -524288 <= glottal_output <= 524288,
        ensures
            final(self).wf(),
            final(self).r_@ == Seq::new(
                MOUTH_CELLS as nat,
                |i: int|
                    mouth_r_scratch(
                        old(self).r@,
                        old(self).l@,
                        old(self).nose_l@[0] as int,
                        *reflections,
                        *new_reflections,
                        lambda as int,
                        glottal_output as int,
                        params.glottal_reflection as int,
                        i,
                    ) as i64,
            ),
            final(self).l_@ == Seq::new(
                MOUTH_CELLS as nat,
                |i: int|
                    mouth_l_scratch(
                        old(self).r@,
                        old(self).l@,
                        old(self).nose_l@[0] as int,
                        *reflections,
                        *new_reflections,
                        lambda as int,
                        params.lip_reflection as int,
                        i,
                    ) as i64,
            ),
            final(self).nose_r_@ == old(self).nose_r_@.update(
                0,
                junction_nose_scratch(
                    old(self).r@,
                    old(self).l@,
                    old(self).nose_l@[0] as int,
                    *reflections,
                    *new_reflections,
                    lambda as int,
                ) as i64,
            ),
            final(self).r@ == Seq::new(
                MOUTH_CELLS as nat,
                |i: int| faded(final(self).r_@[i] as int, params.fade as int) as i64,
            ),
            final(self).l@ == Seq::new(
                MOUTH_CELLS as nat,
                |i: int| faded(final(self).l_@[i] as int, params.fade as int) as i64,
            ),
            forall|i: int| 0 <= i < MOUTH_CELLS ==> -FIX_ONE <= #[trigger] final(self).r@[i]
                <= FIX_ONE,
            forall|i: int| 0 <= i < MOUTH_CELLS ==> -FIX_ONE <= #[trigger] final(self).l@[i]
                <= FIX_ONE,
            lip == final(self).r@[MOUTH_CELLS - 1],
            final(self).nose_r@ == old(self).nose_r@,
            final(self).nose_l@ == old(self).nose_l@,
            final(self).nose_l_@ == old(self).nose_l_@,
            final(self).transients@ == old(self).transients@,
            final(self).turbulences@ == old(self).turbulences@,
    {
        let ghost st0: State = *old(self);
        proof {
            lemma_fmul_bound(st0.l@[0] as int, params.glottal_reflection as int, INJECT_LIMIT as int, FIX_ONE as int);
        }
        let r0: i64 = fix_mul(self.l[0], params.glottal_reflection) + glottal_output;
        self.r_.set(0, r0);
        proof {
            lemma_fmul_bound(st0.r@[43] as int, params.lip_reflection as int, INJECT_LIMIT as int, FIX_ONE as int);
        }
        let l43: i64 = fix_mul(self.r[MOUTH_CELLS - 1], params.lip_reflection);
        self.l_.set(MOUTH_CELLS - 1, l43);
        let mut i: usize = 0;
        while i < MOUTH_CELLS - 1
            invariant
                i <= MOUTH_CELLS - 1,
                st0 == *old(self),
                old(self).wf(),
                reflections.wf(),
                new_reflections.wf(),
                params.wf(),
                0 <= lambda <= FIX_ONE,
                -524288 <= glottal_output <= 524288,
                self.r@ == st0.r@,
                self.l@ == st0.l@,
                self.nose_r@ == st0.nose_r@,
                self.nose_l@ == st0.nose_l@,
                self.nose_r_@ == st0.nose_r_@,
                self.nose_l_@ == st0.nose_l_@,
                self.transients@ == st0.transients@,
                self.turbulences@ == st0.turbulences@,
                self.r_@.len() == MOUTH_CELLS,
                self.l_@.len() == MOUTH_CELLS,
                self.r_@[0] == r0,
                r0 == fmul(st0.l@[0] as int, params.glottal_reflection as int) + glottal_output,
                self.l_@[MOUTH_CELLS - 1] == l43,
                l43 == fmul(st0.r@[43] as int, params.lip_reflection as int),
                forall|j: int|
                    1 <= j <= i ==> #[trigger] self.r_@[j] == (st0.r@[j - 1] as int) - mouth_w(
                        st0.r@,
                        st0.l@,
                        reflections.mouth@,
                        new_reflections.mouth@,
                        lambda as int,
                        j - 1,
                    ),
                forall|j: int|
                    0 <= j < i ==> #[trigger] self.l_@[j] == (st0.l@[j + 1] as int) + mouth_w(
                        st0.r@,
                        st0.l@,
                        reflections.mouth@,
                        new_reflections.mouth@,
                        lambda as int,
                        j,
                    ),
                forall|j: int|
                    0 <= j < MOUTH_CELLS ==> -SCRATCH_LIMIT <= #[trigger] self.r_@[j]
                        <= SCRATCH_LIMIT,
                forall|j: int|
                    0 <= j < MOUTH_CELLS ==> -SCRATCH_LIMIT <= #[trigger] self.l_@[j]
                        <= SCRATCH_LIMIT,
            decreases MOUTH_CELLS - 1 - i,
        {
            let lr: i64 = lerp_fix(reflections.mouth[i], new_reflections.mouth[i], lambda);
            proof {
                lemma_fmul_bound(
                    lr as int,
                    (self.r@[i as int] + self.l@[i as int + 1]) as int,
                    FIX_ONE as int,
                    2 * INJECT_LIMIT as int,
                );
            }
            let w: i64 = fix_mul(lr, self.r[i] + self.l[i + 1]);
            let rv: i64 = self.r[i] - w;
            self.r_.set(i + 1, rv);
            let lv: i64 = self.l[i + 1] + w;
            self.l_.set(i, lv);
            i = i + 1;
        }
        let jl: i64 = lerp_fix(
            reflections.junction_left,
            new_reflections.junction_left,
            lambda,
        );
        proof {
            lemma_fmul_bound(jl as int, st0.r@[16] as int, FIX_ONE as int, INJECT_LIMIT as int);
            lemma_fmul_bound(
                (FIX_ONE + jl) as int,
                (st0.nose_l@[0] + st0.l@[17]) as int,
                2 * FIX_ONE as int,
                2 * INJECT_LIMIT as int,
            );
        }
        let l16: i64 = fix_mul(jl, self.r[16]) + fix_mul(FIX_ONE + jl, self.nose_l[0] + self.l[17]);
        self.l_.set(16, l16);
        let jr: i64 = lerp_fix(
            reflections.junction_right,
            new_reflections.junction_right,
            lambda,
        );
        proof {
            lemma_fmul_bound(jr as int, st0.l@[17] as int, FIX_ONE as int, INJECT_LIMIT as int);
            lemma_fmul_bound(
                (FIX_ONE + jr) as int,
                (st0.r@[16] + st0.nose_l@[0]) as int,
                2 * FIX_ONE as int,
                2 * INJECT_LIMIT as int,
            );
        }
        let r17: i64 = fix_mul(jr, self.l[17]) + fix_mul(FIX_ONE + jr, self.r[16] + self.nose_l[0]);
        self.r_.set(17, r17);
        let jn: i64 = lerp_fix(
            reflections.junction_nose,
            new_reflections.junction_nose,
            lambda,
        );
        proof {
            lemma_fmul_bound(jn as int, st0.nose_l@[0] as int, FIX_ONE as int, INJECT_LIMIT as int);
            lemma_fmul_bound(
                (FIX_ONE + jn) as int,
                (st0.l@[17] + st0.r@[16]) as int,
                2 * FIX_ONE as int,
                2 * INJECT_LIMIT as int,
            );
        }
        let nr0: i64 = fix_mul(jn, self.nose_l[0]) + fix_mul(
            FIX_ONE + jn,
            self.l[17] + self.r[16],
        );
        self.nose_r_.set(0, nr0);
        proof {
            assert(self.r_@ =~= Seq::new(
                MOUTH_CELLS as nat,
                |i: int|
                    mouth_r_scratch(
                        st0.r@,
                        st0.l@,
                        st0.nose_l@[0] as int,
                        *reflections,
                        *new_reflections,
                        lambda as int,
                        glottal_output as int,
                        params.glottal_reflection as int,
                        i,
                    ) as i64,
            ));
            assert(self.l_@ =~= Seq::new(
                MOUTH_CELLS as nat,
                |i: int|
                    mouth_l_scratch(
                        st0.r@,
                        st0.l@,
                        st0.nose_l@[0] as int,
                        *reflections,
                        *new_reflections,
                        lambda as int,
                        params.lip_reflection as int,
                        i,
                    ) as i64,
            ));
            assert(self.nose_r_@ =~= st0.nose_r_@.update(
                0,
                junction_nose_scratch(
                    st0.r@,
                    st0.l@,
                    st0.nose_l@[0] as int,
                    *reflections,
                    *new_reflections,
                    lambda as int,
                ) as i64,
            ));
        }
        let ghost rscr: Seq<i64> = self.r_@;
        let ghost lscr: Seq<i64> = self.l_@;
        let mut i: usize = 0;
        while i < MOUTH_CELLS
            invariant
                i <= MOUTH_CELLS,
                params.wf(),
                self.r@.len() == MOUTH_CELLS,
                self.l@.len() == MOUTH_CELLS,
                self.r_@ == rscr,
                self.l_@ == lscr,
                rscr.len() == MOUTH_CELLS,
                lscr.len() == MOUTH_CELLS,
                self.nose_r@ == st0.nose_r@,
                self.nose_l@ == st0.nose_l@,
                self.nose_r_@ == st0.nose_r_@.update(
                    0,
                    junction_nose_scratch(
                        st0.r@,
                        st0.l@,
                        st0.nose_l@[0] as int,
                        *reflections,
                        *new_reflections,
                        lambda as int,
                    ) as i64,
                ),
                self.nose_l_@ == st0.nose_l_@,
                self.transients@ == st0.transients@,
                self.turbulences@ == st0.turbulences@,
                old(self).wf(),
                st0 == *old(self),
                forall|j: int|
                    0 <= j < MOUTH_CELLS ==> -SCRATCH_LIMIT <= #[trigger] rscr[j] <= SCRATCH_LIMIT,
                forall|j: int|
                    0 <= j < MOUTH_CELLS ==> -SCRATCH_LIMIT <= #[trigger] lscr[j] <= SCRATCH_LIMIT,
                forall|j: int|
                    0 <= j < i ==> #[trigger] self.r@[j] == faded(
                        rscr[j] as int,
                        params.fade as int,
                    ) as i64,
                forall|j: int|
                    0 <= j < i ==> #[trigger] self.l@[j] == faded(
                        lscr[j] as int,
                        params.fade as int,
                    ) as i64,
                forall|j: int| 0 <= j < i ==> -FIX_ONE <= #[trigger] self.r@[j] <= FIX_ONE,
                forall|j: int| 0 <= j < i ==> -FIX_ONE <= #[trigger] self.l@[j] <= FIX_ONE,
                forall|j: int|
                    i <= j < MOUTH_CELLS ==> -INJECT_LIMIT <= #[trigger] self.r@[j]
                        <= INJECT_LIMIT,
                forall|j: int|
                    i <= j < MOUTH_CELLS ==> -INJECT_LIMIT <= #[trigger] self.l@[j]
                        <= INJECT_LIMIT,
            decreases MOUTH_CELLS - i,
        {
            proof {
                lemma_fmul_bound(rscr[i as int] as int, params.fade as int, SCRATCH_LIMIT as int, FIX_ONE as int);
                lemma_fmul_bound(lscr[i as int] as int, params.fade as int, SCRATCH_LIMIT as int, FIX_ONE as int);
            }
            let rv: i64 = fix_mul(self.r_[i], params.fade);
            self.r.set(i, clamp_fix(rv, -FIX_ONE, FIX_ONE));
            let lv: i64 = fix_mul(self.l_[i], params.fade);
            self.l.set(i, clamp_fix(lv, -FIX_ONE, FIX_ONE));
            i = i + 1;
        }
        proof {
            assert(self.r@ =~= Seq::new(
                MOUTH_CELLS as nat,
                |i: int| faded(rscr[i] as int, params.fade as int) as i64,
            ));
            assert(self.l@ =~= Seq::new(
                MOUTH_CELLS as nat,
                |i: int| faded(lscr[i] as int, params.fade as int) as i64,
            ));
        }
        self.r[MOUTH_CELLS - 1]
    }

    /// One scattering pass over the nose branch, using the junction input
    /// prepared by the mouth pass; then fade and clamp. Returns the nostril
    /// output.
    pub fn process_nose(
        &mut self,
        params: &OtherParams,
        reflections: &Reflections,
        first: i64,
    ) -> (out: i64)
        requires
            old(self).wf(),
            params.wf(),
            reflections.wf(),
            -FIX_ONE <= first <= FIX_ONE,
        ensures
            final(self).wf(),
            final(self).nose_l_@ == Seq::new(
                NOSE_CELLS as nat,
                |i: int|
                    nose_l_scratch(
                        old(self).nose_r@,
                        old(self).nose_l@,
                        reflections.nose@,
                        first as int,
                        params.lip_reflection as int,
                        i,
                    ) as i64,
            ),
            final(self).nose_r_@ == Seq::new(
                NOSE_CELLS as nat,
                |i: int|
                    nose_r_scratch(
                        old(self).nose_r@,
                        old(self).nose_l@,
                        old(self).nose_r_@[0] as int,
                        reflections.nose@,
                        first as int,
                        i,
                    ) as i64,
            ),
            final(self).nose_r@ == Seq::new(
                NOSE_CELLS as nat,
                |i: int| faded(final(self).nose_r_@[i] as int, params.fade as int) as i64,
            ),
            final(self).nose_l@ == Seq::new(
                NOSE_CELLS as nat,
                |i: int| faded(final(self).nose_l_@[i] as int, params.fade as int) as i64,
            ),
            forall|i: int| 0 <= i < NOSE_CELLS ==> -FIX_ONE <= #[trigger] final(self).nose_r@[i]
                <= FIX_ONE,
            forall|i: int| 0 <= i < NOSE_CELLS ==> -FIX_ONE <= #[trigger] final(self).nose_l@[i]
                <= FIX_ONE,
            out == final(self).nose_r@[NOSE_CELLS - 1],
            final(self).r@ == old(self).r@,
            final(self).l@ == old(self).l@,
            final(self).r_@ == old(self).r_@,
            final(self).l_@ == old(self).l_@,
            final(self).transients@ == old(self).transients@,
            final(self).turbulences@ == old(self).turbulences@,
    {
        let ghost st0: State = *old(self);
        proof {
            lemma_fmul_bound(st0.nose_r@[27] as int, params.lip_reflection as int, INJECT_LIMIT as int, FIX_ONE as int);
        }
        let lend: i64 = fix_mul(self.nose_r[NOSE_CELLS - 1], params.lip_reflection);
        self.nose_l_.set(NOSE_CELLS - 1, lend);
        proof {
            lemma_fmul_bound(
                first as int,
                (st0.nose_r@[0] + st0.nose_l@[1]) as int,
                FIX_ONE as int,
                2 * INJECT_LIMIT as int,
            );
        }
        let w0: i64 = fix_mul(first, self.nose_r[0] + self.nose_l[1]);
        let r1: i64 = self.nose_r[0] - w0;
        self.nose_r_.set(1, r1);
        let l0: i64 = self.nose_l[1] + w0;
        self.nose_l_.set(0, l0);
        let mut i: usize = 1;
        while i < NOSE_CELLS - 1
            invariant
                1 <= i <= NOSE_CELLS - 1,
                st0 == *old(self),
                old(self).wf(),
                reflections.wf(),
                params.wf(),
                -FIX_ONE <= first <= FIX_ONE,
                self.r@ == st0.r@,
                self.l@ == st0.l@,
                self.r_@ == st0.r_@,
                self.l_@ == st0.l_@,
                self.nose_r@ == st0.nose_r@,
                self.nose_l@ == st0.nose_l@,
                self.transients@ == st0.transients@,
                self.turbulences@ == st0.turbulences@,
                self.nose_r_@.len() == NOSE_CELLS,
                self.nose_l_@.len() == NOSE_CELLS,
                self.nose_r_@[0] == st0.nose_r_@[0],
                self.nose_l_@[NOSE_CELLS - 1] == lend,
                lend == fmul(st0.nose_r@[27] as int, params.lip_reflection as int),
                forall|j: int|
                    1 <= j <= i ==> #[trigger] self.nose_r_@[j] == (st0.nose_r@[j - 1] as int)
                        - nose_w(st0.nose_r@, st0.nose_l@, reflections.nose@, first as int, j - 1),
                forall|j: int|
                    0 <= j < i ==> #[trigger] self.nose_l_@[j] == (st0.nose_l@[j + 1] as int)
                        + nose_w(st0.nose_r@, st0.nose_l@, reflections.nose@, first as int, j),
                forall|j: int|
                    0 <= j < NOSE_CELLS ==> -SCRATCH_LIMIT <= #[trigger] self.nose_r_@[j]
                        <= SCRATCH_LIMIT,
                forall|j: int|
                    0 <= j < NOSE_CELLS ==> -SCRATCH_LIMIT <= #[trigger] self.nose_l_@[j]
                        <= SCRATCH_LIMIT,
            decreases NOSE_CELLS - 1 - i,
        {
            proof {
                lemma_fmul_bound(
                    reflections.nose@[i as int] as int,
                    (st0.nose_r@[i as int] + st0.nose_l@[i as int + 1]) as int,
                    FIX_ONE as int,
                    2 * INJECT_LIMIT as int,
                );
            }
            let w: i64 = fix_mul(reflections.nose[i], self.nose_r[i] + self.nose_l[i + 1]);
            let rv: i64 = self.nose_r[i] - w;
            self.nose_r_.set(i + 1, rv);
            let lv: i64 = self.nose_l[i + 1] + w;
            self.nose_l_.set(i, lv);
            i = i + 1;
        }
        proof {
            assert(self.nose_l_@ =~= Seq::new(
                NOSE_CELLS as nat,
                |i: int|
                    nose_l_scratch(
                        st0.nose_r@,
                        st0.nose_l@,
                        reflections.nose@,
                        first as int,
                        params.lip_reflection as int,
                        i,
                    ) as i64,
            ));
            assert(self.nose_r_@ =~= Seq::new(
                NOSE_CELLS as nat,
                |i: int|
                    nose_r_scratch(
                        st0.nose_r@,
                        st0.nose_l@,
                        st0.nose_r_@[0] as int,
                        reflections.nose@,
                        first as int,
                        i,
                    ) as i64,
            ));
        }
        let ghost rscr: Seq<i64> = self.nose_r_@;
        let ghost lscr: Seq<i64> = self.nose_l_@;
        let mut i: usize = 0;
        while i < NOSE_CELLS
            invariant
                i <= NOSE_CELLS,
                params.wf(),
                st0 == *old(self),
                old(self).wf(),
                self.nose_r@.len() == NOSE_CELLS,
                self.nose_l@.len() == NOSE_CELLS,
                self.nose_r_@ == rscr,
                self.nose_l_@ == lscr,
                rscr.len() == NOSE_CELLS,
                lscr.len() == NOSE_CELLS,
                self.r@ == st0.r@,
                self.l@ == st0.l@,
                self.r_@ == st0.r_@,
                self.l_@ == st0.l_@,
                self.transients@ == st0.transients@,
                self.turbulences@ == st0.turbulences@,
                forall|j: int|
                    0 <= j < NOSE_CELLS ==> -SCRATCH_LIMIT <= #[trigger] rscr[j] <= SCRATCH_LIMIT,
                forall|j: int|
                    0 <= j < NOSE_CELLS ==> -SCRATCH_LIMIT <= #[trigger] lscr[j] <= SCRATCH_LIMIT,
                forall|j: int|
                    0 <= j < i ==> #[trigger] self.nose_r@[j] == faded(
                        rscr[j] as int,
                        params.fade as int,
                    ) as i64,
                forall|j: int|
                    0 <= j < i ==> #[trigger] self.nose_l@[j] == faded(
                        lscr[j] as int,
                        params.fade as int,
                    ) as i64,
                forall|j: int| 0 <= j < i ==> -FIX_ONE <= #[trigger] self.nose_r@[j] <= FIX_ONE,
                forall|j: int| 0 <= j < i ==> -FIX_ONE <= #[trigger] self.nose_l@[j] <= FIX_ONE,
                forall|j: int|
                    i <= j < NOSE_CELLS ==> -INJECT_LIMIT <= #[trigger] self.nose_r@[j]
                        <= INJECT_LIMIT,
                forall|j: int|
                    i <= j < NOSE_CELLS ==> -INJECT_LIMIT <= #[trigger] self.nose_l@[j]
                        <= INJECT_LIMIT,
            decreases NOSE_CELLS - i,
        {
            proof {
                lemma_fmul_bound(rscr[i as int] as int, params.fade as int, SCRATCH_LIMIT as int, FIX_ONE as int);
                lemma_fmul_bound(lscr[i as int] as int, params.fade as int, SCRATCH_LIMIT as int, FIX_ONE as int);
            }
            let rv: i64 = fix_mul(self.nose_r_[i], params.fade);
            self.nose_r.set(i, clamp_fix(rv, -FIX_ONE, FIX_ONE));
            let lv: i64 = fix_mul(self.nose_l_[i], params.fade);
            self.nose_l.set(i, clamp_fix(lv, -FIX_ONE, FIX_ONE));
            i = i + 1;
        }
        proof {
            assert(self.nose_r@ =~= Seq::new(
                NOSE_CELLS as nat,
                |i: int| faded(rscr[i] as int, params.fade as int) as i64,
            ));
            assert(self.nose_l@ =~= Seq::new(
                NOSE_CELLS as nat,
                |i: int| faded(lscr[i] as int, params.fade as int) as i64,
            ));
        }
        self.nose_r[NOSE_CELLS - 1]
    }
}

/// A product with zero vanishes in fixed point.
pub proof fn lemma_fmul_zero(a: int)
    ensures
        fmul(a, 0) == 0,
        fmul(0, a) == 0,
{
    assert(a * 0 == 0) by (nonlinear_arith);
    assert(0 * a == 0) by (nonlinear_arith);
    vstd::arithmetic::div_mod::lemma_div_of0(FIX_ONE as int);
}

/// Silence is preserved: with the whole wave field at rest and no glottal
/// excitation, one solver pass computes an exactly zero scratch row and an
/// exactly zero next field — sound never appears on its own. (How fast a
/// non-zero field then dies away under the fade is a quantitative matter,
/// checked by test.)
pub proof fn lemma_silence_preserved(
    r: Seq<i64>,
    l: Seq<i64>,
    refl: Reflections,
    newr: Reflections,
    lambda: int,
    gr: int,
    lip: int,
    fade: int,
)
    requires
        r.len() == MOUTH_CELLS,
        l.len() == MOUTH_CELLS,
        refl.mouth@.len() == MOUTH_CELLS - 1,
        newr.mouth@.len() == MOUTH_CELLS - 1,
        forall|i: int| 0 <= i < MOUTH_CELLS ==> #[trigger] r[i] == 0i64,
        forall|i: int| 0 <= i < MOUTH_CELLS ==> #[trigger] l[i] == 0i64,
    ensures
        forall|i: int|
            0 <= i < MOUTH_CELLS ==> #[trigger] mouth_r_scratch(
                r,
                l,
                0,
                refl,
                newr,
                lambda,
                0,
                gr,
                i,
            ) == 0,
        forall|i: int|
            0 <= i < MOUTH_CELLS ==> #[trigger] mouth_l_scratch(
                r,
                l,
                0,
                refl,
                newr,
                lambda,
                lip,
                i,
            ) == 0,
        junction_nose_scratch(r, l, 0, refl, newr, lambda) == 0,
        faded(0, fade) == 0,
{
    assert forall|i: int| 0 <= i < MOUTH_CELLS implies #[trigger] mouth_r_scratch(
        r,
        l,
        0,
        refl,
        newr,
        lambda,
        0,
        gr,
        i,
    ) == 0 by {
        lemma_fmul_zero(gr);
        if i == 17 {
            let jr = flerp(refl.junction_right as int, newr.junction_right as int, lambda);
            lemma_fmul_zero(jr);
            lemma_fmul_zero((FIX_ONE as int) + jr);
        } else if i > 0 {
            lemma_fmul_zero(lerp_refl(refl.mouth@, newr.mouth@, lambda, i - 1));
        }
    }
    assert forall|i: int| 0 <= i < MOUTH_CELLS implies #[trigger] mouth_l_scratch(
        r,
        l,
        0,
        refl,
        newr,
        lambda,
        lip,
        i,
    ) == 0 by {
        lemma_fmul_zero(lip);
        if i == 16 {
            let jl = flerp(refl.junction_left as int, newr.junction_left as int, lambda);
            lemma_fmul_zero(jl);
            lemma_fmul_zero((FIX_ONE as int) + jl);
        } else if i < MOUTH_CELLS - 1 {
            lemma_fmul_zero(lerp_refl(refl.mouth@, newr.mouth@, lambda, i));
        }
    }
    let jn = flerp(refl.junction_nose as int, newr.junction_nose as int, lambda);
    lemma_fmul_zero(jn);
    lemma_fmul_zero((FIX_ONE as int) + jn);
    lemma_fmul_zero(fade);
}

/// The observable wave state between solver steps: the four stored wave
/// rows and the two source pools (the scratch rows are rewritten before
/// every use, so they carry no information across steps).
pub struct WaveModel {
    pub r: Seq<i64>,
    pub l: Seq<i64>,
    pub nose_r: Seq<i64>,
    pub nose_l: Seq<i64>,
    pub transients: Seq<Transient>,
    pub turbulences: Seq<Turbulence>,
}

impl State {
    /// The observable part of the state.
    pub open spec fn model(self) -> WaveModel {
        WaveModel {
            r: self.r@,
            l: self.l@,
            nose_r: self.nose_r@,
            nose_l: self.nose_l@,
            transients: self.transients@,
            turbulences: self.turbulences@,
        }
    }
}

/// One whole solver step as a function of the observable state: transients
/// and turbulence inject into the mouth rows, the mouth pass scatters and
/// clamps, and the nose pass follows with the junction input the mouth pass
/// produced. Returns the next state with the lip and nostril outputs.
#[verifier::opaque]
pub open spec fn run_step_model(
    m: WaveModel,
    refl: Reflections,
    newr: Reflections,
    gr: int,
    lip: int,
    fade: int,
    lambda: int,
    glottal: int,
    tnoise: int,
    step200: int,
    istep: int,
    life: int,
) -> (WaveModel, int, int) {
    let pt = transients_fold(m.r, m.l, m.transients, step200);
    let tb = turbulences_fold(pt.0, pt.1, m.turbulences, istep, tnoise);
    let r2 = Seq::new(
        MOUTH_CELLS as nat,
        |i: int|
            faded(
                (mouth_r_scratch(
                    tb.0,
                    tb.1,
                    m.nose_l[0] as int,
                    refl,
                    newr,
                    lambda,
                    glottal,
                    gr,
                    i,
                ) as i64) as int,
                fade,
            ) as i64,
    );
    let l2 = Seq::new(
        MOUTH_CELLS as nat,
        |i: int|
            faded(
                (mouth_l_scratch(
                    tb.0,
                    tb.1,
                    m.nose_l[0] as int,
                    refl,
                    newr,
                    lambda,
                    lip,
                    i,
                ) as i64) as int,
                fade,
            ) as i64,
    );
    let jn = (junction_nose_scratch(tb.0, tb.1, m.nose_l[0] as int, refl, newr, lambda) as i64)
        as int;
    let first = flerp(refl.nose@[0] as int, newr.nose@[0] as int, lambda);
    let nr2 = Seq::new(
        NOSE_CELLS as nat,
        |i: int|
            faded(
                (nose_r_scratch(m.nose_r, m.nose_l, jn, newr.nose@, first, i) as i64) as int,
                fade,
            ) as i64,
    );
    let nl2 = Seq::new(
        NOSE_CELLS as nat,
        |i: int|
            faded(
                (nose_l_scratch(m.nose_r, m.nose_l, newr.nose@, first, lip, i) as i64) as int,
                fade,
            ) as i64,
    );
    (
        WaveModel {
            r: r2,
            l: l2,
            nose_r: nr2,
            nose_l: nl2,
            transients: pt.2.filter(|t: Transient| t.time_alive <= life),
            turbulences: tb.2.filter(|t: Turbulence| t.on || t.intensity > 0),
        },
        r2[MOUTH_CELLS - 1] as int,
        nr2[NOSE_CELLS - 1] as int,
    )
}

/// Half of a value, truncated toward zero.
fn half_exec(x: i64) -> (r: i64)
    requires
        -0x400000000 <= x <= 0x400000000,
    ensures
        r == crate::fixed::sdiv(x as int, 2),
{
    if x >= 0 {
        div_pos(x, 2)
    } else {
        -div_pos(-x, 2)
    }
}

/// Both wave directions at `pos` bumped by `half`, clamped into the
/// injection window.
pub open spec fn inject_at(r: Seq<i64>, l: Seq<i64>, pos: int, half: int) -> (Seq<i64>, Seq<i64>) {
    (
        r.update(pos, fclamp(r[pos] + half, -INJECT_LIMIT as int, INJECT_LIMIT as int) as i64),
        l.update(pos, fclamp(l[pos] + half, -INJECT_LIMIT as int, INJECT_LIMIT as int) as i64),
    )
}

/// One transient acting on the mouth waves: it waits out its delay, then
/// injects its decaying amplitude equally in both directions and ages by
/// one step.
pub open spec fn transient_step(r: Seq<i64>, l: Seq<i64>, tr: Transient, step200: int) -> (
    Seq<i64>,
    Seq<i64>,
    Transient,
) {
    if tr.delay > 0 {
        (
            r,
            l,
            Transient {
                delay: (tr.delay - 1) as i64,
                ..tr
            },
        )
    } else {
        let amp = transient_amplitude(tr.strength as int, tr.time_alive as int, step200);
        let half = amp / 2;
        let rl = inject_at(r, l, tr.position as int, half);
        (
            rl.0,
            rl.1,
            Transient {
                time_alive: fclamp(tr.time_alive + 1, 0, 0x200000) as i64,
                ..tr
            },
        )
    }
}

/// All transients acting in order.
pub open spec fn transients_fold(r: Seq<i64>, l: Seq<i64>, trs: Seq<Transient>, step200: int) -> (
    Seq<i64>,
    Seq<i64>,
    Seq<Transient>,
)
    decreases trs.len(),
{
    if trs.len() == 0 {
        (r, l, Seq::<Transient>::empty())
    } else {
        let prev = transients_fold(r, l, trs.drop_last(), step200);
        let st = transient_step(prev.0, prev.1, trs.last(), step200);
        (st.0, st.1, prev.2.push(st.2))
    }
}

/// Noise spread over the two cells around a fractional position, half into
/// each wave direction; positions whose upper cell would fall off the end
/// inject nothing.
pub open spec fn noise_inject(r: Seq<i64>, l: Seq<i64>, index: int, namp: int) -> (
    Seq<i64>,
    Seq<i64>,
) {
    let pos = index + FIX_ONE;
    let cell = pos / (FIX_ONE as int);
    let delta = pos % (FIX_ONE as int);
    if cell + 1 >= MOUTH_CELLS {
        (r, l)
    } else {
        let half0 = crate::fixed::sdiv(fmul(namp, (FIX_ONE as int) - delta), 2);
        let half1 = crate::fixed::sdiv(fmul(namp, delta), 2);
        let rl0 = inject_at(r, l, cell, half0);
        inject_at(rl0.0, rl0.1, cell + 1, half1)
    }
}

/// One turbulence source acting on the mouth waves: its intensity moves,
/// and if it is audible its noise lands just ahead of its constriction.
pub open spec fn turbulence_step(
    r: Seq<i64>,
    l: Seq<i64>,
    tb: Turbulence,
    istep: int,
    noise: int,
) -> (Seq<i64>, Seq<i64>, Turbulence) {
    let t2 = Turbulence {
        intensity: crate::shape::turb_intensity_next(tb, istep) as i64,
        ..tb
    };
    let amp = fmul(t2.strength as int, t2.intensity as int);
    if amp == 0 {
        (r, l, t2)
    } else {
        let rl = noise_inject(r, l, t2.index as int, fmul(noise, amp));
        (rl.0, rl.1, t2)
    }
}

/// All turbulence sources acting in order.
pub open spec fn turbulences_fold(
    r: Seq<i64>,
    l: Seq<i64>,
    tbs: Seq<Turbulence>,
    istep: int,
    noise: int,
) -> (Seq<i64>, Seq<i64>, Seq<Turbulence>)
    decreases tbs.len(),
{
    if tbs.len() == 0 {
        (r, l, Seq::<Turbulence>::empty())
    } else {
        let prev = turbulences_fold(r, l, tbs.drop_last(), istep, noise);
        let st = turbulence_step(prev.0, prev.1, tbs.last(), istep, noise);
        (st.0, st.1, prev.2.push(st.2))
    }
}

/// A vector of `n` zeroes.
fn zero_vec(n: usize) -> (v: Vec<i64>)
    ensures
        v@ == Seq::new(n as nat, |i: int| 0i64),
{
    let mut v: Vec<i64> = Vec::new();
    let mut i: usize = 0;
    while i < n
        invariant
            i <= n,
            v@.len() == i,
            forall|j: int| 0 <= j < i ==> #[trigger] v@[j] == 0i64,
        decreases n - i,
    {
        v.push(0);
        i = i + 1;
    }
    proof {
        assert(v@ =~= Seq::new(n as nat, |i: int| 0i64));
    }
    v
}

} // verus!
