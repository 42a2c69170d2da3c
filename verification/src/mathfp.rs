//! Fixed-point scalar math for the simulation: sine and cosine over turn
//! fractions, a velocity-heading approximation, and an integer square root.
//!
//! Angles are measured in turn fractions: `FP_ONE` fixed-point units make one
//! full revolution, so a value `t` in `[0, FP_ONE)` stands for the angle
//! `2*pi*t / FP_ONE` radians.

use vstd::prelude::*;
use crate::FP_ONE;

verus! {

/// Half a turn, in fixed-point turn units.
pub const HALF_TURN: i64 = 5000;

/// A quarter turn, in fixed-point turn units.
pub const QUARTER_TURN: i64 = 2500;

/// The sine of the angle `t` turns, as a fixed-point value in
/// `[-FP_ONE, FP_ONE]`: a parabolic arc over each half turn.
pub open spec fn sin_fp_spec(t: int) -> int
    recommends
        0 <= t < FP_ONE,
{
    if t <= HALF_TURN {
        t * (HALF_TURN - t) / 625
    } else {
        -((t - HALF_TURN) * (FP_ONE - t) / 625)
    }
}

/// The cosine of the angle `t` turns: the sine a quarter turn ahead.
pub open spec fn cos_fp_spec(t: int) -> int
    recommends
        0 <= t < FP_ONE,
{
    sin_fp_spec((t + QUARTER_TURN) % (FP_ONE as int))
}

proof fn lemma_parabola_bound(t: int)
    requires
        0 <= t <= HALF_TURN,
    ensures
        0 <= t * (HALF_TURN - t) <= 6_250_000,
{
    assert(0 <= t * (HALF_TURN - t) <= 6_250_000) by (nonlinear_arith)
        requires 0 <= t <= 5000;
}

/// Computes `sin_fp_spec(t)` for a turn fraction `t`.
pub fn sin_fp(t: i64) -> (r: i64)
    requires
        0 <= t < FP_ONE,
    ensures
        r == sin_fp_spec(t as int),
        -FP_ONE <= r <= FP_ONE,
{
    if t <= HALF_TURN {
        proof {
            lemma_parabola_bound(t as int);
        }
        t * (HALF_TURN - t) / 625
    } else {
        proof {
            lemma_parabola_bound((FP_ONE - t) as int);
            assert((t - HALF_TURN) * (FP_ONE - t) == (FP_ONE - t) * (HALF_TURN - (FP_ONE - t)))
                by (nonlinear_arith);
        }
        -((t - HALF_TURN) * (FP_ONE - t) / 625)
    }
}

/// Computes `cos_fp_spec(t)` for a turn fraction `t`.
pub fn cos_fp(t: i64) -> (r: i64)
    requires
        0 <= t < FP_ONE,
    ensures
        r == cos_fp_spec(t as int),
        -FP_ONE <= r <= FP_ONE,
{
    let shifted = if t + QUARTER_TURN >= FP_ONE {
        t + QUARTER_TURN - FP_ONE
    } else {
        t + QUARTER_TURN
    };
    assert(shifted == (t + QUARTER_TURN) % (FP_ONE as int));
    sin_fp(shifted)
}

/// One eighth of a turn, in fixed-point turn units.
pub const EIGHTH_TURN: i64 = 1250;

/// The within-octant part of the heading approximation: a linear
/// interpolation of `atan` across one octant, in turn units.
pub open spec fn octant_frac_spec(num: int, den: int) -> int
    recommends
        0 <= num <= den,
        0 < den,
{
    num * EIGHTH_TURN / den
}

fn octant_frac(num: i64, den: i64) -> (r: i64)
    requires
        0 <= num <= den,
        0 < den,
        num <= 0x7fff_ffff_ffff,
    ensures
        r == octant_frac_spec(num as int, den as int),
        0 <= r <= EIGHTH_TURN,
{
    proof {
        let n = num as int;
        let d = den as int;
        assert(0 <= n * EIGHTH_TURN <= d * EIGHTH_TURN) by (nonlinear_arith)
            requires 0 <= n <= d;
        assert(d * EIGHTH_TURN / d == EIGHTH_TURN) by (nonlinear_arith)
            requires 0 < d;
        vstd::arithmetic::div_mod::lemma_div_is_ordered(
            n * EIGHTH_TURN,
            d * EIGHTH_TURN,
            d,
        );
        vstd::arithmetic::div_mod::lemma_div_pos_is_pos(n * EIGHTH_TURN, d);
    }
    num * EIGHTH_TURN / den
}

/// The heading of the vector `(vx, vy)` as a turn fraction in
/// `[0, FP_ONE)`: an octant-wise linear approximation of `atan2`, with the
/// zero vector mapped to heading 0.
pub open spec fn heading_spec(vx: int, vy: int) -> int {
    let ax = if vx < 0 { -vx } else { vx };
    let ay = if vy < 0 { -vy } else { vy };
    if ax == 0 && ay == 0 {
        0
    } else if vx >= 0 && vy >= 0 {
        if ax >= ay {
            octant_frac_spec(ay, ax)
        } else {
            QUARTER_TURN - octant_frac_spec(ax, ay)
        }
    } else if vx < 0 && vy >= 0 {
        if ax < ay {
            QUARTER_TURN + octant_frac_spec(ax, ay)
        } else {
            HALF_TURN - octant_frac_spec(ay, ax)
        }
    } else if vx < 0 && vy < 0 {
        if ax >= ay {
            HALF_TURN + octant_frac_spec(ay, ax)
        } else {
            3 * QUARTER_TURN - octant_frac_spec(ax, ay)
        }
    } else {
        if ax < ay {
            3 * QUARTER_TURN + octant_frac_spec(ax, ay)
        } else {
            (FP_ONE - octant_frac_spec(ay, ax)) % (FP_ONE as int)
        }
    }
}

/// Computes `heading_spec(vx, vy)`.
pub fn heading_turns(vx: i64, vy: i64) -> (r: i64)
    requires
        -0x7fff_ffff_ffff <= vx <= 0x7fff_ffff_ffff,
        -0x7fff_ffff_ffff <= vy <= 0x7fff_ffff_ffff,
    ensures
        r == heading_spec(vx as int, vy as int),
        0 <= r < FP_ONE,
{
    let ax = if vx < 0 { -vx } else { vx };
    let ay = if vy < 0 { -vy } else { vy };
    if ax == 0 && ay == 0 {
        0
    } else if vx >= 0 && vy >= 0 {
        if ax >= ay {
            octant_frac(ay, ax)
        } else {
            QUARTER_TURN - octant_frac(ax, ay)
        }
    } else if vx < 0 && vy >= 0 {
        if ax < ay {
            QUARTER_TURN + octant_frac(ax, ay)
        } else {
            HALF_TURN - octant_frac(ay, ax)
        }
    } else if vx < 0 && vy < 0 {
        if ax >= ay {
            HALF_TURN + octant_frac(ay, ax)
        } else {
            3 * QUARTER_TURN - octant_frac(ax, ay)
        }
    } else {
        if ax < ay {
            3 * QUARTER_TURN + octant_frac(ax, ay)
        } else {
            let f = octant_frac(ay, ax);
            if f == 0 {
                0
            } else {
                FP_ONE - f
            }
        }
    }
}

/// Division truncated toward zero, as Rust's `/` truncates: on nonnegative
/// dividends the Euclidean quotient, on negative ones its negation on the
/// magnitude.
pub open spec fn div_trunc(a: int, b: int) -> int
    recommends
        b > 0,
{
    if a >= 0 {
        a / b
    } else {
        -((-a) / b)
    }
}

/// The integer square root: the greatest `r` with `r * r <= n`.
pub open spec fn is_isqrt(n: int, r: int) -> bool {
    0 <= r && r * r <= n && n < (r + 1) * (r + 1)
}

/// The integer square root as a value: the unique `r` with
/// `r * r <= n < (r + 1) * (r + 1)`.
pub open spec fn sqrt_spec(n: int) -> int {
    choose|r: int| is_isqrt(n, r)
}

/// The integer square root is unique.
pub proof fn lemma_isqrt_unique(n: int, r1: int, r2: int)
    requires
        is_isqrt(n, r1),
        is_isqrt(n, r2),
    ensures
        r1 == r2,
{
    if r1 < r2 {
        assert((r1 + 1) * (r1 + 1) <= r2 * r2) by (nonlinear_arith)
            requires 0 <= r1 && r1 < r2;
    }
    if r2 < r1 {
        assert((r2 + 1) * (r2 + 1) <= r1 * r1) by (nonlinear_arith)
            requires 0 <= r2 && r2 < r1;
    }
}

/// Computes the integer square root of `n`.
pub fn isqrt64(n: u64) -> (r: u64)
    ensures
        is_isqrt(n as int, r as int),
        r == sqrt_spec(n as int),
{
    let mut lo: u64 = 0;
    let mut hi: u64 = 0xffff_ffff;
    if n >= 0xffff_fffe_0000_0001 {
        proof {
            assert(0xffff_ffffu64 * 0xffff_ffffu64 == 0xffff_fffe_0000_0001u64) by (nonlinear_arith);
            assert(is_isqrt(n as int, 0xffff_ffff));
            lemma_isqrt_unique(n as int, 0xffff_ffff, sqrt_spec(n as int));
        }
        return 0xffff_ffff;
    }
    // Invariant: lo * lo <= n < (hi + 1) * (hi + 1)
    while lo < hi
        invariant
            lo <= hi <= 0xffff_ffff,
            lo * lo <= n,
            n < (hi + 1) * (hi + 1),
        decreases hi - lo,
    {
        let mid = lo + (hi - lo + 1) / 2;
        proof {
            assert(lo < mid <= hi);
            assert(mid * mid <= 0xffff_ffff * 0xffff_ffff) by (nonlinear_arith)
                requires 0 <= mid <= 0xffff_ffff;
        }
        if mid * mid <= n {
            lo = mid;
        } else {
            hi = mid - 1;
        }
    }
    proof {
        assert(is_isqrt(n as int, lo as int));
        lemma_isqrt_unique(n as int, lo as int, sqrt_spec(n as int));
    }
    lo
}

} // verus!
