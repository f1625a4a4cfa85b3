//! Signed fixed-point arithmetic: an `i64` holds a real value scaled by
//! `FIX_ONE`. All executable operations here have exact contracts stated with
//! the spec functions `fmul`, `fdiv`, `flerp` and `fclamp`, which use
//! truncated (round-toward-zero) division.

use vstd::prelude::*;
use vstd::arithmetic::div_mod::*;

verus! {

/// The fixed-point representation of 1.0.
pub const FIX_ONE: i64 = 65536;

/// Largest magnitude accepted by the arithmetic helpers; chosen so that all
/// intermediate products fit comfortably in the machine word.
pub const FIX_BOUND: i64 = 0x400000000;

/// Magnitude of an integer.
pub open spec fn iabs(x: int) -> int {
    if x >= 0 {
        x
    } else {
        -x
    }
}

/// Division truncated toward zero (the behaviour of machine division on
/// signed integers), defined for positive divisors.
pub open spec fn sdiv(x: int, d: int) -> int {
    if x >= 0 {
        x / d
    } else {
        -((-x) / d)
    }
}

/// Product of two fixed-point values.
pub open spec fn fmul(a: int, b: int) -> int {
    sdiv(a * b, FIX_ONE as int)
}

/// Quotient of two fixed-point values.
pub open spec fn fdiv(a: int, b: int) -> int {
    sdiv(a * (FIX_ONE as int), b)
}

/// Clamp to a closed interval.
pub open spec fn fclamp(x: int, lo: int, hi: int) -> int {
    if x < lo {
        lo
    } else if x > hi {
        hi
    } else {
        x
    }
}

/// Linear interpolation `a + (b - a) * t` in fixed point.
pub open spec fn flerp(a: int, b: int, t: int) -> int {
    a + fmul(b - a, t)
}

/// A non-negative dividend below `d * b` divides by `d` to at most `b`.
pub proof fn lemma_udiv_bound(x: int, d: int, b: int)
    requires
        d >= 1,
        0 <= x,
        x <= d * b,
        0 <= b,
    ensures
        x / d <= b,
{
    lemma_div_multiples_vanish(b, d);
    lemma_div_is_ordered(x, d * b, d);
}

/// The magnitude of a truncated quotient is the quotient of the magnitude.
pub proof fn lemma_sdiv_abs(x: int, d: int)
    requires
        d >= 1,
    ensures
        iabs(sdiv(x, d)) == iabs(x) / d,
        x >= 0 ==> sdiv(x, d) >= 0,
        x <= 0 ==> sdiv(x, d) <= 0,
{
    if x >= 0 {
        lemma_div_pos_is_pos(x, d);
    } else {
        lemma_div_pos_is_pos(-x, d);
    }
}

/// A quotient is no larger in magnitude than any bound that the dividend
/// stays under, scaled by the divisor.
pub proof fn lemma_sdiv_bound(x: int, d: int, b: int)
    requires
        d >= 1,
        iabs(x) <= d * b,
        0 <= b,
    ensures
        iabs(sdiv(x, d)) <= b,
{
    lemma_sdiv_abs(x, d);
    lemma_udiv_bound(iabs(x), d, b);
}

/// The product of two bounded fixed-point values is bounded accordingly.
pub proof fn lemma_fmul_bound(a: int, b: int, ba: int, bb: int)
    requires
        iabs(a) <= ba,
        iabs(b) <= bb,
    ensures
        iabs(fmul(a, b)) * (FIX_ONE as int) <= ba * bb,
        iabs(fmul(a, b)) <= (ba * bb) / (FIX_ONE as int),
{
    let s: int = FIX_ONE as int;
    assert(iabs(a * b) == iabs(a) * iabs(b)) by (nonlinear_arith);
    assert(iabs(a) * iabs(b) <= ba * bb) by (nonlinear_arith)
        requires
            iabs(a) <= ba,
            iabs(b) <= bb,
            0 <= iabs(a),
            0 <= iabs(b),
    ;
    lemma_sdiv_abs(a * b, s);
    lemma_div_is_ordered(iabs(a * b), ba * bb, s);
    lemma_fundamental_div_mod(iabs(a * b), s);
    lemma_mod_bound(iabs(a * b), s);
    assert(iabs(fmul(a, b)) == iabs(a * b) / s);
    assert((iabs(a * b) / s) * s <= iabs(a * b)) by (nonlinear_arith)
        requires
            s * (iabs(a * b) / s) + iabs(a * b) % s == iabs(a * b),
            iabs(a * b) % s >= 0,
    ;
}

/// Interpolation by `t` in `[0, FIX_ONE]` lands between its endpoints.
pub proof fn lemma_flerp_between(a: int, b: int, t: int)
    requires
        0 <= t <= FIX_ONE as int,
    ensures
        a <= b ==> a <= flerp(a, b, t) <= b,
        b <= a ==> b <= flerp(a, b, t) <= a,
{
    let s: int = FIX_ONE as int;
    let d: int = b - a;
    assert(iabs(d * t) <= iabs(d) * s) by (nonlinear_arith)
        requires
            0 <= t <= s,
    ;
    lemma_sdiv_abs(d * t, s);
    lemma_udiv_bound(iabs(d * t), s, iabs(d));
    if d >= 0 {
        assert(d * t >= 0) by (nonlinear_arith)
            requires
                d >= 0,
                t >= 0,
        ;
    } else {
        assert(d * t <= 0) by (nonlinear_arith)
            requires
                d <= 0,
                t >= 0,
        ;
    }
}

/// Magnitude of an `i64`, as a `u64`.
pub fn abs_u64(x: i64) -> (r: u64)
    requires
        x != i64::MIN,
    ensures
        r == iabs(x as int),
{
    if x < 0 {
        (-x) as u64
    } else {
        x as u64
    }
}

/// Fixed-point multiplication; exact per `fmul`.
pub fn fix_mul(a: i64, b: i64) -> (r: i64)
    requires
        -0x1000000000 <= a <= 0x1000000000,
        -0x1000000000 <= b <= 0x1000000000,
    ensures
        r == fmul(a as int, b as int),
        iabs(r as int) * (FIX_ONE as int) <= iabs(a as int) * iabs(b as int),
{
    let ghost s: int = FIX_ONE as int;
    let ghost ab: int = (a as int) * (b as int);
    let neg: bool = (a < 0) != (b < 0);
    let ma: u64 = abs_u64(a);
    let mb: u64 = abs_u64(b);
    proof {
        assert((ma as int) * (mb as int) <= 0x1000000000 * 0x1000000000) by (nonlinear_arith)
            requires
                0 <= ma <= 0x1000000000,
                0 <= mb <= 0x1000000000,
        ;
        assert(iabs(ab) == iabs(a as int) * iabs(b as int)) by (nonlinear_arith)
            requires
                ab == (a as int) * (b as int),
        ;
    }
    let p: u128 = (ma as u128) * (mb as u128);
    let q: u128 = p / (FIX_ONE as u128);
    proof {
        assert(p == iabs(ab));
        assert(65536int * 0x100000000000000int == 0x1000000000int * 0x1000000000int);
        lemma_udiv_bound(p as int, s, 0x100000000000000int);
        lemma_div_pos_is_pos(p as int, s);
        lemma_sdiv_abs(ab, s);
        assert(iabs(sdiv(ab, s)) == q as int);
        lemma_fundamental_div_mod(p as int, s);
        lemma_mod_bound(p as int, s);
        assert((q as int) * s <= p as int) by (nonlinear_arith)
            requires
                s * (q as int) + (p as int) % s == p as int,
                (p as int) % s >= 0,
        ;
    }
    let r: i64 = if neg {
        -(q as i64)
    } else {
        q as i64
    };
    proof {
        if neg {
            if ab > 0 {
                assert(false) by (nonlinear_arith)
                    requires
                        ab == (a as int) * (b as int),
                        ((a as int) < 0 && (b as int) >= 0) || ((a as int) >= 0 && (b as int) < 0),
                        ab > 0,
                ;
            }
            assert(sdiv(ab, s) <= 0);
            assert(r as int == -(q as int));
        } else {
            if ab < 0 {
                assert(false) by (nonlinear_arith)
                    requires
                        ab == (a as int) * (b as int),
                        ((a as int) >= 0 && (b as int) >= 0) || ((a as int) < 0 && (b as int) < 0),
                        ab < 0,
                ;
            }
            assert(sdiv(ab, s) >= 0);
        }
    }
    r
}

/// Fixed-point division by a positive divisor; exact per `fdiv`.
pub fn fix_div(a: i64, b: i64) -> (r: i64)
    requires
        -FIX_BOUND <= a <= FIX_BOUND,
        1 <= b,
    ensures
        r == fdiv(a as int, b as int),
        iabs(r as int) <= iabs(a as int) * (FIX_ONE as int),
{
    let ghost s: int = FIX_ONE as int;
    let ghost asc: int = (a as int) * s;
    let ma: u64 = abs_u64(a);
    proof {
        assert(iabs(asc) == iabs(a as int) * s) by (nonlinear_arith)
            requires
                asc == (a as int) * s,
                s > 0,
        ;
        assert((ma as int) * s <= 0x400000000 * 65536) by (nonlinear_arith)
            requires
                0 <= ma <= 0x400000000,
                s == 65536,
        ;
    }
    let p: u64 = ma * (FIX_ONE as u64);
    let q: u64 = p / (b as u64);
    proof {
        assert(p == iabs(asc));
        lemma_div_nonincreasing(p as int, b as int);
        lemma_div_pos_is_pos(p as int, b as int);
        lemma_sdiv_abs(asc, b as int);
        assert(iabs(sdiv(asc, b as int)) == q as int);
    }
    let r: i64 = if a < 0 {
        -(q as i64)
    } else {
        q as i64
    };
    proof {
        if a < 0 {
            assert(asc < 0) by (nonlinear_arith)
                requires
                    asc == (a as int) * s,
                    (a as int) < 0,
                    s > 0,
            ;
        } else {
            assert(asc >= 0) by (nonlinear_arith)
                requires
                    asc == (a as int) * s,
                    (a as int) >= 0,
                    s > 0,
            ;
        }
    }
    r
}

/// Quotient of a non-negative value by a positive constant; machine and
/// mathematical division agree here.
pub fn div_pos(a: i64, d: i64) -> (r: i64)
    requires
        0 <= a,
        1 <= d,
    ensures
        r == (a as int) / (d as int),
        0 <= r <= a,
{
    let q: u64 = (a as u64) / (d as u64);
    proof {
        lemma_div_nonincreasing(a as int, d as int);
        lemma_div_pos_is_pos(a as int, d as int);
    }
    q as i64
}

/// One quarter turn, in the `cos_turns` angle format.
pub const QUARTER_TURN: i64 = 16384;

/// The fixed-point representation of pi / 2.
pub const HALF_PI_FIX: i64 = 102944;

/// Truncated-series cosine on the first quarter turn: `r` ranges over
/// `[0, QUARTER_TURN]`, standing for an angle in `[0, pi/2]`.
pub open spec fn cos_quarter(r: int) -> int {
    let x = (r * (HALF_PI_FIX as int)) / (QUARTER_TURN as int);
    let x2 = fmul(x, x);
    let x4 = fmul(x2, x2);
    let x6 = fmul(x4, x2);
    fclamp(
        (FIX_ONE as int) - x2 / 2 + x4 / 24 - x6 / 720,
        -(FIX_ONE as int),
        FIX_ONE as int,
    )
}

/// Cosine of an angle given in turns (one full cycle is `FIX_ONE`), reduced
/// by quadrant symmetry to `cos_quarter`.
pub open spec fn spec_cos_turns(t: int) -> int {
    let u = t % (FIX_ONE as int);
    let q = u / (QUARTER_TURN as int);
    let r = u % (QUARTER_TURN as int);
    if q == 0 {
        cos_quarter(r)
    } else if q == 1 {
        -cos_quarter((QUARTER_TURN as int) - r)
    } else if q == 2 {
        -cos_quarter(r)
    } else {
        cos_quarter((QUARTER_TURN as int) - r)
    }
}

/// Sine in turns: a quarter-turn phase shift of the cosine.
pub open spec fn spec_sin_turns(t: int) -> int {
    spec_cos_turns(t - (QUARTER_TURN as int))
}

fn cos_quarter_exec(r: i64) -> (c: i64)
    requires
        0 <= r <= QUARTER_TURN,
    ensures
        c == cos_quarter(r as int),
        -FIX_ONE <= c <= FIX_ONE,
{
    proof {
        assert((r as int) * (HALF_PI_FIX as int) <= (QUARTER_TURN as int) * (
        HALF_PI_FIX as int)) by (nonlinear_arith)
            requires
                0 <= r <= QUARTER_TURN,
        ;
        lemma_udiv_bound(
            (r as int) * (HALF_PI_FIX as int),
            QUARTER_TURN as int,
            HALF_PI_FIX as int,
        );
    }
    let x: i64 = div_pos(r * HALF_PI_FIX, QUARTER_TURN);
    let x2: i64 = fix_mul(x, x);
    proof {
        lemma_sdiv_abs((x as int) * (x as int), FIX_ONE as int);
        lemma_fmul_bound(x as int, x as int, HALF_PI_FIX as int, HALF_PI_FIX as int);
        assert(0 <= x2 <= 0x30000);
    }
    let x4: i64 = fix_mul(x2, x2);
    proof {
        lemma_sdiv_abs((x2 as int) * (x2 as int), FIX_ONE as int);
        lemma_fmul_bound(x2 as int, x2 as int, 0x30000, 0x30000);
        assert(0 <= x4 <= 0x90000);
    }
    let x6: i64 = fix_mul(x4, x2);
    proof {
        lemma_sdiv_abs((x4 as int) * (x2 as int), FIX_ONE as int);
        lemma_fmul_bound(x4 as int, x2 as int, 0x90000, 0x30000);
        assert(0 <= x6 <= 0x1b0000);
    }
    let c: i64 = FIX_ONE - div_pos(x2, 2) + div_pos(x4, 24) - div_pos(x6, 720);
    clamp_fix(c, -FIX_ONE, FIX_ONE)
}

/// Reduce an angle in turns to one cycle: the mathematical (Euclidean)
/// remainder, always in `[0, FIX_ONE)`.
pub fn turn_mod(t: i64) -> (u: i64)
    requires
        -FIX_BOUND <= t <= FIX_BOUND,
    ensures
        u == (t as int) % (FIX_ONE as int),
        0 <= u < FIX_ONE,
{
    let d: u64 = FIX_ONE as u64;
    if t >= 0 {
        let m: u64 = (t as u64) % d;
        proof {
            lemma_mod_bound(t as int, FIX_ONE as int);
        }
        m as i64
    } else {
        let k: u64 = ((-t) as u64) % d;
        proof {
            let n: int = -(t as int);
            let q: int = n / (FIX_ONE as int);
            lemma_fundamental_div_mod(n, FIX_ONE as int);
            lemma_mod_bound(n, FIX_ONE as int);
            if k == 0 {
                assert(t as int == (FIX_ONE as int) * (-q));
                lemma_mod_multiples_basic(-q, FIX_ONE as int);
            } else {
                assert(t as int == (FIX_ONE as int) * (-q - 1) + ((FIX_ONE as int) - (
                k as int))) by (nonlinear_arith)
                    requires
                        n == (FIX_ONE as int) * q + (k as int),
                        n == -(t as int),
                ;
                lemma_mod_multiples_vanish(-q - 1, (FIX_ONE as int) - (k as int), FIX_ONE as int);
                lemma_small_mod(((FIX_ONE as int) - (k as int)) as nat, FIX_ONE as nat);
            }
        }
        if k == 0 {
            0
        } else {
            FIX_ONE - (k as i64)
        }
    }
}

/// Cosine of an angle in turns; exact per `spec_cos_turns`.
pub fn cos_turns(t: i64) -> (c: i64)
    requires
        -FIX_BOUND <= t <= FIX_BOUND,
    ensures
        c == spec_cos_turns(t as int),
        -FIX_ONE <= c <= FIX_ONE,
{
    let u: i64 = turn_mod(t);
    let q: i64 = div_pos(u, QUARTER_TURN);
    let r: i64 = u - q * QUARTER_TURN;
    proof {
        lemma_fundamental_div_mod(u as int, QUARTER_TURN as int);
        lemma_mod_bound(u as int, QUARTER_TURN as int);
        assert((q as int) * (QUARTER_TURN as int) <= u as int);
        assert(q <= 3);
    }
    if q == 0 {
        cos_quarter_exec(r)
    } else if q == 1 {
        -cos_quarter_exec(QUARTER_TURN - r)
    } else if q == 2 {
        -cos_quarter_exec(r)
    } else {
        cos_quarter_exec(QUARTER_TURN - r)
    }
}

/// Sine of an angle in turns; exact per `spec_sin_turns`.
pub fn sin_turns(t: i64) -> (c: i64)
    requires
        -FIX_BOUND + QUARTER_TURN <= t <= FIX_BOUND,
    ensures
        c == spec_sin_turns(t as int),
        -FIX_ONE <= c <= FIX_ONE,
{
    cos_turns(t - QUARTER_TURN)
}

/// `r` is the integer square root of `n`.
pub open spec fn is_isqrt(n: int, r: int) -> bool {
    0 <= r && r * r <= n < (r + 1) * (r + 1)
}

/// The integer square root, as a function.
pub open spec fn isqrt(n: int) -> int {
    choose|r: int| is_isqrt(n, r)
}

/// The integer square root is unique, so any witness equals `isqrt`.
pub proof fn lemma_isqrt_unique(n: int, r: int)
    requires
        is_isqrt(n, r),
    ensures
        isqrt(n) == r,
{
    assert(is_isqrt(n, isqrt(n)));
    let c: int = isqrt(n);
    if c < r {
        assert((c + 1) * (c + 1) <= r * r) by (nonlinear_arith)
            requires
                0 <= c,
                c + 1 <= r,
        ;
    }
    if r < c {
        assert((r + 1) * (r + 1) <= c * c) by (nonlinear_arith)
            requires
                0 <= r,
                r + 1 <= c,
        ;
    }
}

/// Fixed-point square root of a non-negative value: the integer square root
/// of the value re-scaled so the result is in fixed-point format again.
pub fn sqrt_fix(x: i64) -> (r: i64)
    requires
        0 <= x <= FIX_BOUND,
    ensures
        is_isqrt((x as int) * (FIX_ONE as int), r as int),
        r == isqrt((x as int) * (FIX_ONE as int)),
        0 <= r <= 0x2000000,
{
    proof {
        assert((x as int) * (FIX_ONE as int) <= 0x400000000 * 65536) by (nonlinear_arith)
            requires
                0 <= x <= 0x400000000,
        ;
    }
    let n: u64 = (x as u64) * (FIX_ONE as u64);
    let mut lo: u64 = 0;
    let mut hi: u64 = 0x2000001;
    proof {
        assert(0x2000001u64 * 0x2000001u64 > 0x400000000 * 65536) by (nonlinear_arith);
    }
    while lo + 1 < hi
        invariant
            0 <= lo < hi <= 0x2000001,
            (lo as int) * (lo as int) <= n as int,
            (n as int) < (hi as int) * (hi as int),
        decreases hi - lo,
    {
        let mid: u64 = lo + (hi - lo) / 2;
        proof {
            assert((mid as int) * (mid as int) <= 0x2000001 * 0x2000001) by (nonlinear_arith)
                requires
                    0 <= mid <= 0x2000001,
            ;
        }
        if mid * mid <= n {
            lo = mid;
        } else {
            hi = mid;
        }
    }
    proof {
        lemma_isqrt_unique((x as int) * (FIX_ONE as int), lo as int);
    }
    lo as i64
}

/// Plain truncating division of a signed value by a positive divisor;
/// exact per `sdiv`.
pub fn div_trunc(a: i64, b: i64) -> (r: i64)
    requires
        -0x4000000000000000 <= a <= 0x4000000000000000,
        1 <= b,
    ensures
        r == sdiv(a as int, b as int),
        iabs(r as int) <= iabs(a as int),
{
    let ma: u64 = abs_u64(a);
    let q: u64 = ma / (b as u64);
    proof {
        lemma_div_nonincreasing(ma as int, b as int);
        lemma_div_pos_is_pos(ma as int, b as int);
        lemma_sdiv_abs(a as int, b as int);
    }
    if a < 0 {
        -(q as i64)
    } else {
        q as i64
    }
}

/// Clamp; exact per `fclamp`.
pub fn clamp_fix(x: i64, lo: i64, hi: i64) -> (r: i64)
    requires
        lo <= hi,
    ensures
        r == fclamp(x as int, lo as int, hi as int),
        lo <= r <= hi,
{
    if x < lo {
        lo
    } else if x > hi {
        hi
    } else {
        x
    }
}

/// Two raised to a fixed-point exponent in `[-2, 2]`: a quadratic fit on
/// the fractional part, shifted by the whole octaves, clamped to the
/// four-octave window.
pub open spec fn spec_exp2(e: int) -> int {
    let ke = (e + 131072) / (FIX_ONE as int) - 2;
    let f = e + 131072 - (ke + 2) * (FIX_ONE as int);
    let base = (FIX_ONE as int) + fmul(43022, f) + fmul(22514, fmul(f, f));
    let shifted = if ke == -2 {
        base / 4
    } else if ke == -1 {
        base / 2
    } else if ke == 0 {
        base
    } else if ke == 1 {
        base * 2
    } else {
        base * 4
    };
    fclamp(shifted, 16384, 262144)
}

/// Two to a fixed-point power; exact per `spec_exp2` and inside the
/// four-octave window.
pub fn exp2_fix(e: i64) -> (r: i64)
    requires
        -131072 <= e <= 131072,
    ensures
        r == spec_exp2(e as int),
        16384 <= r <= 262144,
{
    let shifted_e: i64 = e + 131072;
    let ke: i64 = div_pos(shifted_e, FIX_ONE) - 2;
    let f: i64 = shifted_e - (ke + 2) * FIX_ONE;
    proof {
        lemma_fundamental_div_mod(shifted_e as int, FIX_ONE as int);
        lemma_mod_bound(shifted_e as int, FIX_ONE as int);
        lemma_udiv_bound(shifted_e as int, FIX_ONE as int, 4);
        assert(shifted_e as int <= (FIX_ONE as int) * 4);
        lemma_fmul_bound(43022, f as int, 43022, FIX_ONE as int);
        lemma_fmul_bound(f as int, f as int, FIX_ONE as int, FIX_ONE as int);
        lemma_fmul_bound(22514, fmul(f as int, f as int), 22514, FIX_ONE as int);
    }
    proof {
        assert(43022 * (f as int) >= 0) by (nonlinear_arith)
            requires
                f >= 0,
        ;
        assert((f as int) * (f as int) >= 0) by (nonlinear_arith);
        assert(22514 * fmul(f as int, f as int) >= 0) by (nonlinear_arith)
            requires
                fmul(f as int, f as int) >= 0,
        ;
        lemma_sdiv_abs(43022 * (f as int), FIX_ONE as int);
        lemma_sdiv_abs((f as int) * (f as int), FIX_ONE as int);
        lemma_sdiv_abs(22514 * fmul(f as int, f as int), FIX_ONE as int);
        lemma_div_pos_is_pos(43022 * (f as int), FIX_ONE as int);
        lemma_div_pos_is_pos((f as int) * (f as int), FIX_ONE as int);
        lemma_div_pos_is_pos(22514 * fmul(f as int, f as int), FIX_ONE as int);
    }
    let base: i64 = FIX_ONE + fix_mul(43022, f) + fix_mul(22514, fix_mul(f, f));
    let shifted: i64 = if ke == -2 {
        div_pos(base, 4)
    } else if ke == -1 {
        div_pos(base, 2)
    } else if ke == 0 {
        base
    } else if ke == 1 {
        base * 2
    } else {
        base * 4
    };
    clamp_fix(shifted, 16384, 262144)
}

/// Linear interpolation; exact per `flerp`, and the result lies between the
/// endpoints.
pub fn lerp_fix(a: i64, b: i64, t: i64) -> (r: i64)
    requires
        -FIX_BOUND <= a <= FIX_BOUND,
        -FIX_BOUND <= b <= FIX_BOUND,
        0 <= t <= FIX_ONE,
    ensures
        r == flerp(a as int, b as int, t as int),
        a <= b ==> a <= r <= b,
        b <= a ==> b <= r <= a,
{
    let d: i64 = b - a;
    let m: i64 = fix_mul(d, t);
    proof {
        lemma_flerp_between(a as int, b as int, t as int);
    }
    a + m
}

} // verus!
