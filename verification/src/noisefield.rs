//! The flow field source: seeded 3D coherent noise, sampled on fixed-point
//! coordinates and mapped to a flow angle or unit direction.
//!
//! The noise is a seeded value-noise lattice: each integer lattice corner
//! carries a pseudo-random value in `[-FP_ONE, FP_ONE]` derived from a
//! mixing hash of the seed and the corner coordinates, and points between
//! corners are trilinearly interpolated under a smoothstep weight. The
//! output is proved to lie in `[-FP_ONE, FP_ONE]`, the bounded range the
//! angle mapping downstream assumes, and is a pure function of seed and
//! sample point, so equal seeds give identical fields.
//!
//! The sampled scalar is interpreted as a whole number of turns: the flow
//! angle is the sample wrapped onto the canonical turn `[0, FP_ONE)`, and
//! the flow direction is the cosine/sine pair of that angle.

use vstd::prelude::*;
use crate::FP_ONE;
use crate::mathfp::{cos_fp, cos_fp_spec, div_trunc, sin_fp, sin_fp_spec};

verus! {

/// Offset added to lattice coordinates before hashing so they are
/// nonnegative; sample coordinates must keep cells within it.
pub const GRID_OFFSET: i64 = 0x2000_0000_0000;

/// The mixing hash of one lattice corner: the seed and the three offset
/// corner coordinates folded through multiply-xor-shift rounds.
pub open spec fn corner_hash(seed: u32, cx: u64, cy: u64, cz: u64) -> u64 {
    let h0 = (seed as u64) ^ 0x9E37_79B9_7F4A_7C15u64;
    let h1 = vstd::wrapping::u64_specs::wrapping_mul(h0 ^ cx, 0xBF58_476D_1CE4_E5B9u64);
    let h2 = vstd::wrapping::u64_specs::wrapping_mul(h1 ^ cy, 0x94D0_49BB_1331_11EBu64);
    let h3 = vstd::wrapping::u64_specs::wrapping_mul(h2 ^ cz, 0xD6E8_FEB8_6659_FD93u64);
    h3 ^ (h3 >> 32)
}

/// The value carried by one lattice corner: the hash folded into
/// `[-FP_ONE, FP_ONE]`.
pub open spec fn corner_val_spec(seed: u32, cx: u64, cy: u64, cz: u64) -> int {
    corner_hash(seed, cx, cy, cz) % 20001 - FP_ONE
}

fn corner_val(seed: u32, cx: u64, cy: u64, cz: u64) -> (v: i64)
    ensures
        v == corner_val_spec(seed, cx, cy, cz),
        -FP_ONE <= v <= FP_ONE,
{
    let h0 = (seed as u64) ^ 0x9E37_79B9_7F4A_7C15u64;
    let h1 = (h0 ^ cx).wrapping_mul(0xBF58_476D_1CE4_E5B9u64);
    let h2 = (h1 ^ cy).wrapping_mul(0x94D0_49BB_1331_11EBu64);
    let h3 = (h2 ^ cz).wrapping_mul(0xD6E8_FEB8_6659_FD93u64);
    let h = h3 ^ (h3 >> 32);
    (h % 20001) as i64 - FP_ONE
}

/// The smoothstep weight of an in-cell fraction: `t*t*(3 - 2*t)` in fixed
/// point, a value in `[0, FP_ONE]`.
pub open spec fn smooth_spec(t: int) -> int
    recommends
        0 <= t < FP_ONE,
{
    t * t * (3 * FP_ONE - 2 * t) / ((FP_ONE * FP_ONE) as int)
}

fn smooth(t: i64) -> (s: i64)
    requires
        0 <= t < FP_ONE,
    ensures
        s == smooth_spec(t as int),
        0 <= s <= FP_ONE,
{
    proof {
        let ti = t as int;
        let fp = FP_ONE as int;
        assert((fp - ti) * (fp - ti) * (fp + 2 * ti) == fp * fp * fp - ti * ti * (3 * fp - 2 * ti))
            by (nonlinear_arith);
        assert(0 <= (fp - ti) * (fp - ti) * (fp + 2 * ti)) by (nonlinear_arith)
            requires 0 <= ti < fp;
        assert(0 <= ti * ti * (3 * fp - 2 * ti)) by (nonlinear_arith)
            requires 0 <= ti < fp;
        vstd::arithmetic::div_mod::lemma_div_pos_is_pos(ti * ti * (3 * fp - 2 * ti), fp * fp);
        vstd::arithmetic::div_mod::lemma_div_is_ordered(
            ti * ti * (3 * fp - 2 * ti),
            fp * fp * fp,
            fp * fp,
        );
        assert(fp * fp * fp / (fp * fp) == fp) by (nonlinear_arith)
            requires fp == 10000;
        assert(0 <= ti * ti <= 100_000_000 && ti * ti * (3 * fp - 2 * ti) <= 3_000_000_000_000)
            by (nonlinear_arith)
            requires 0 <= ti < fp && fp == 10000;
    }
    t * t * (3 * FP_ONE - 2 * t) / (FP_ONE * FP_ONE)
}

/// Linear interpolation from `a` to `b` by the fraction `t` of `FP_ONE`,
/// with truncating fixed-point scaling.
pub open spec fn lerp_spec(a: int, b: int, t: int) -> int
    recommends
        0 <= t <= FP_ONE,
{
    a + div_trunc((b - a) * t, FP_ONE as int)
}

/// Interpolation stays within the interval spanned by its endpoints.
proof fn lemma_lerp_bounds(a: int, b: int, t: int)
    requires
        -FP_ONE <= a <= FP_ONE,
        -FP_ONE <= b <= FP_ONE,
        0 <= t <= FP_ONE,
    ensures
        -FP_ONE <= lerp_spec(a, b, t) <= FP_ONE,
{
    let fp = FP_ONE as int;
    if b >= a {
        assert(0 <= (b - a) * t <= (b - a) * fp) by (nonlinear_arith)
            requires a <= b && 0 <= t <= fp;
        vstd::arithmetic::div_mod::lemma_div_pos_is_pos((b - a) * t, fp);
        vstd::arithmetic::div_mod::lemma_div_is_ordered((b - a) * t, (b - a) * fp, fp);
        assert((b - a) * fp / fp == b - a) by (nonlinear_arith)
            requires a <= b && fp == 10000;
    } else {
        assert(0 <= (a - b) * t <= (a - b) * fp) by (nonlinear_arith)
            requires b < a && 0 <= t <= fp;
        vstd::arithmetic::div_mod::lemma_div_pos_is_pos((a - b) * t, fp);
        vstd::arithmetic::div_mod::lemma_div_is_ordered((a - b) * t, (a - b) * fp, fp);
        assert((a - b) * fp / fp == a - b) by (nonlinear_arith)
            requires b < a && fp == 10000;
        assert((b - a) * t == -((a - b) * t)) by (nonlinear_arith);
    }
}

fn lerp(a: i64, b: i64, t: i64) -> (r: i64)
    requires
        -FP_ONE <= a <= FP_ONE,
        -FP_ONE <= b <= FP_ONE,
        0 <= t <= FP_ONE,
    ensures
        r == lerp_spec(a as int, b as int, t as int),
        -FP_ONE <= r <= FP_ONE,
{
    proof {
        lemma_lerp_bounds(a as int, b as int, t as int);
        assert(-(2 * FP_ONE * FP_ONE) <= (b - a) * t <= 2 * FP_ONE * FP_ONE) by (nonlinear_arith)
            requires -2 * FP_ONE <= b - a <= 2 * FP_ONE && 0 <= t <= FP_ONE;
    }
    let d = (b - a) * t;
    if d >= 0 {
        a + d / FP_ONE
    } else {
        a + -((-d) / FP_ONE)
    }
}

/// The lattice cell of a fixed-point coordinate and the fraction within
/// it: the floor quotient and the nonnegative remainder by `FP_ONE`.
fn cell_of(x: i64) -> (cf: (i64, i64))
    requires
        -GRID_OFFSET < x < GRID_OFFSET,
    ensures
        cf.0 == (x as int) / (FP_ONE as int),
        cf.1 == (x as int) % (FP_ONE as int),
        0 <= cf.1 < FP_ONE,
        -GRID_OFFSET <= cf.0 <= GRID_OFFSET,
{
    let q = x / FP_ONE;
    let r = x % FP_ONE;
    if r < 0 {
        (q - 1, r + FP_ONE)
    } else {
        (q, r)
    }
}

/// The coherent-noise value at a fixed-point sample point: the eight
/// corner values of the enclosing lattice cell, trilinearly interpolated
/// under smoothstep weights. Always in `[-FP_ONE, FP_ONE]`.
pub open spec fn noise3_spec(seed: u32, x: int, y: int, z: int) -> int {
    let fp = FP_ONE as int;
    let cx = (x / fp + GRID_OFFSET) as u64;
    let cy = (y / fp + GRID_OFFSET) as u64;
    let cz = (z / fp + GRID_OFFSET) as u64;
    let u = smooth_spec(x % fp);
    let v = smooth_spec(y % fp);
    let w = smooth_spec(z % fp);
    let x00 = lerp_spec(
        corner_val_spec(seed, cx, cy, cz),
        corner_val_spec(seed, (cx + 1) as u64, cy, cz),
        u,
    );
    let x10 = lerp_spec(
        corner_val_spec(seed, cx, (cy + 1) as u64, cz),
        corner_val_spec(seed, (cx + 1) as u64, (cy + 1) as u64, cz),
        u,
    );
    let x01 = lerp_spec(
        corner_val_spec(seed, cx, cy, (cz + 1) as u64),
        corner_val_spec(seed, (cx + 1) as u64, cy, (cz + 1) as u64),
        u,
    );
    let x11 = lerp_spec(
        corner_val_spec(seed, cx, (cy + 1) as u64, (cz + 1) as u64),
        corner_val_spec(seed, (cx + 1) as u64, (cy + 1) as u64, (cz + 1) as u64),
        u,
    );
    let y0 = lerp_spec(x00, x10, v);
    let y1 = lerp_spec(x01, x11, v);
    lerp_spec(y0, y1, w)
}

/// Evaluates `noise3_spec` at a fixed-point sample point.
pub fn noise3(seed: u32, x: i64, y: i64, z: i64) -> (n: i64)
    requires
        -GRID_OFFSET < x < GRID_OFFSET,
        -GRID_OFFSET < y < GRID_OFFSET,
        -GRID_OFFSET < z < GRID_OFFSET,
    ensures
        n == noise3_spec(seed, x as int, y as int, z as int),
        -FP_ONE <= n <= FP_ONE,
{
    let (qx, fx) = cell_of(x);
    let (qy, fy) = cell_of(y);
    let (qz, fz) = cell_of(z);
    let cx = (qx + GRID_OFFSET) as u64;
    let cy = (qy + GRID_OFFSET) as u64;
    let cz = (qz + GRID_OFFSET) as u64;
    let u = smooth(fx);
    let v = smooth(fy);
    let w = smooth(fz);
    let x00 = lerp(corner_val(seed, cx, cy, cz), corner_val(seed, cx + 1, cy, cz), u);
    let x10 = lerp(corner_val(seed, cx, cy + 1, cz), corner_val(seed, cx + 1, cy + 1, cz), u);
    let x01 = lerp(corner_val(seed, cx, cy, cz + 1), corner_val(seed, cx + 1, cy, cz + 1), u);
    let x11 = lerp(
        corner_val(seed, cx, cy + 1, cz + 1),
        corner_val(seed, cx + 1, cy + 1, cz + 1),
        u,
    );
    let y0 = lerp(x00, x10, v);
    let y1 = lerp(x01, x11, v);
    lerp(y0, y1, w)
}

/// A seedable 3D coherent-noise field: the flow field is a pure function
/// of the seed.
#[derive(Clone, Copy)]
pub struct NoiseField {
    /// The seed the field is derived from.
    pub seed: u32,
}

impl NoiseField {
    /// Builds the field for a seed; equal seeds give identical fields.
    pub fn new(seed: u32) -> (r: NoiseField)
        ensures
            r.seed == seed,
    {
        NoiseField { seed }
    }

    /// The raw noise sample at world position `(px, py)` under `scale` and
    /// depth `z`: the noise evaluated at the scaled coordinates.
    pub open spec fn sample_spec(self, px: int, py: int, scale: int, z: int) -> int {
        noise3_spec(self.seed, mul_div_fp_spec(px, scale), mul_div_fp_spec(py, scale), z)
    }

    /// The flow angle at a sample: the raw noise value taken as a whole
    /// number of turns, wrapped onto the canonical turn `[0, FP_ONE)`.
    pub open spec fn angle_spec(self, px: int, py: int, scale: int, z: int) -> int {
        self.sample_spec(px, py, scale, z) % (FP_ONE as int)
    }

    /// Samples the flow angle at world position `(px, py)`.
    #[verifier::rlimit(80)]
    pub fn sample_angle(&self, px: i64, py: i64, scale: i64, z: i64) -> (a: i64)
        requires
            -0x4000_0000_0000 <= px * scale <= 0x4000_0000_0000,
            -0x4000_0000_0000 <= py * scale <= 0x4000_0000_0000,
            -GRID_OFFSET < z < GRID_OFFSET,
        ensures
            a == self.angle_spec(px as int, py as int, scale as int, z as int),
            0 <= a < FP_ONE,
    {
        let n = noise3(self.seed, mul_div_fp(px, scale), mul_div_fp(py, scale), z);
        let m = n % FP_ONE;
        if m < 0 {
            m + FP_ONE
        } else {
            m
        }
    }

    /// The flow direction at a sample: the unit vector of the flow angle,
    /// as a fixed-point cosine/sine pair.
    pub open spec fn direction_spec(self, px: int, py: int, scale: int, z: int) -> (int, int) {
        let a = self.angle_spec(px, py, scale, z);
        (cos_fp_spec(a), sin_fp_spec(a))
    }

    /// Samples the flow direction at world position `(px, py)`.
    pub fn sample_direction(&self, px: i64, py: i64, scale: i64, z: i64) -> (d: (i64, i64))
        requires
            -0x4000_0000_0000 <= px * scale <= 0x4000_0000_0000,
            -0x4000_0000_0000 <= py * scale <= 0x4000_0000_0000,
            -GRID_OFFSET < z < GRID_OFFSET,
        ensures
            (d.0 as int, d.1 as int) == self.direction_spec(
                px as int,
                py as int,
                scale as int,
                z as int,
            ),
            -FP_ONE <= d.0 <= FP_ONE,
            -FP_ONE <= d.1 <= FP_ONE,
    {
        let a = self.sample_angle(px, py, scale, z);
        (cos_fp(a), sin_fp(a))
    }
}

/// Reseeding is deterministic: two noise fields built from equal seeds
/// agree on every sample, so they produce identical flow angles and
/// directions everywhere.
pub proof fn lemma_same_seed_same_field(
    a: NoiseField,
    b: NoiseField,
    px: int,
    py: int,
    scale: int,
    z: int,
)
    requires
        a.seed == b.seed,
    ensures
        a.sample_spec(px, py, scale, z) == b.sample_spec(px, py, scale, z),
        a.angle_spec(px, py, scale, z) == b.angle_spec(px, py, scale, z),
        a.direction_spec(px, py, scale, z) == b.direction_spec(px, py, scale, z),
{
}

/// The fixed-point scaling `a * b / FP_ONE`, truncated toward zero.
pub open spec fn mul_div_fp_spec(a: int, b: int) -> int {
    div_trunc(a * b, FP_ONE as int)
}

/// Computes `mul_div_fp_spec`, the truncating fixed-point product.
pub fn mul_div_fp(a: i64, b: i64) -> (r: i64)
    requires
        -0x4000_0000_0000 <= a * b <= 0x4000_0000_0000,
    ensures
        r == mul_div_fp_spec(a as int, b as int),
        -0x4000_0000_0000 <= r <= 0x4000_0000_0000,
{
    let p = a * b;
    if p >= 0 {
        proof {
            vstd::arithmetic::div_mod::lemma_div_pos_is_pos(p as int, FP_ONE as int);
            vstd::arithmetic::div_mod::lemma_div_is_ordered(p as int, 0x4000_0000_0000, FP_ONE as int);
        }
        p / FP_ONE
    } else {
        proof {
            vstd::arithmetic::div_mod::lemma_div_pos_is_pos((-p) as int, FP_ONE as int);
            vstd::arithmetic::div_mod::lemma_div_is_ordered(
                (-p) as int,
                0x4000_0000_0000,
                FP_ONE as int,
            );
        }
        -((-p) / FP_ONE)
    }
}

} // verus!
