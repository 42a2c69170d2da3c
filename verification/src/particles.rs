//! Particles and their per-sub-step integration: flow-field acceleration,
//! friction damping, Euler position update, aging, color mapping and trail
//! drawing, and retirement at the margin boundary.

use vstd::prelude::*;
use crate::FP_ONE;
use crate::clamp_spec;
use crate::color::{hsv_spec, hsv_to_rgb, ColorMode};
use crate::mathfp::{heading_spec, heading_turns, is_isqrt, isqrt64, sqrt_spec, div_trunc, HALF_TURN};
use crate::noisefield::{mul_div_fp, mul_div_fp_spec, NoiseField};
use crate::params::Params;
use crate::raster::{draw_segment_additive, segment_spec};

verus! {

/// The retirement margin around the canvas, in fixed-point units (10 px).
pub const MARGIN_FP: i64 = 100_000;

/// Bound on each velocity component, preserved by every sub-step: the
/// fixed point of acceleration at most `FORCE_MAX` followed by damping at
/// most `FRICTION_MAX`.
pub const VEL_MAX: i64 = 99_950_000;

/// Bound on each position coordinate of any particle, live or stale.
pub const POS_LIMIT: i64 = 300_000_000;

/// Bound on each position coordinate of a live particle: any allowed
/// canvas plus the margin lies below it.
pub const ALIVE_POS_MAX: i64 = 164_000_000;

/// Largest allowed canvas side, in pixels.
pub const CANVAS_MAX: i64 = 0x4000;

/// One particle: fixed-point position and velocity, an age counter, and
/// the liveness flag that alone decides whether it steps and draws. Dead
/// slots keep stale data until a spawn reuses them.
#[derive(Clone, Copy)]
pub struct Particle {
    /// Position x, fixed-point canvas coordinates.
    pub px: i64,
    /// Position y.
    pub py: i64,
    /// Velocity x, fixed-point units per sub-step.
    pub vx: i64,
    /// Velocity y.
    pub vy: i64,
    /// Sub-steps lived, saturating.
    pub age: u32,
    /// Whether the particle participates in stepping and drawing.
    pub alive: bool,
}

impl Particle {
    /// All numeric fields are within the simulation's bounds.
    pub open spec fn bounded(self) -> bool {
        &&& -VEL_MAX <= self.vx <= VEL_MAX
        &&& -VEL_MAX <= self.vy <= VEL_MAX
        &&& -POS_LIMIT <= self.px <= POS_LIMIT
        &&& -POS_LIMIT <= self.py <= POS_LIMIT
        &&& self.alive ==> -MARGIN_FP <= self.px <= ALIVE_POS_MAX && -MARGIN_FP <= self.py
            <= ALIVE_POS_MAX
    }

    /// A freshly spawned particle: alive at the given position with zero
    /// velocity and zero age.
    pub fn new(px: i64, py: i64) -> (p: Particle)
        requires
            0 <= px <= ALIVE_POS_MAX,
            0 <= py <= ALIVE_POS_MAX,
        ensures
            p == (Particle { px, py, vx: 0, vy: 0, age: 0, alive: true }),
            p.bounded(),
    {
        Particle { px, py, vx: 0, vy: 0, age: 0, alive: true }
    }
}

/// Whether a position lies inside the canvas expanded by the retirement
/// margin; a particle that leaves this region is marked dead. `w` and `h`
/// are in pixels.
pub open spec fn inside_margin(px: int, py: int, w: int, h: int) -> bool {
    &&& -MARGIN_FP <= px <= w * FP_ONE + MARGIN_FP
    &&& -MARGIN_FP <= py <= h * FP_ONE + MARGIN_FP
}

/// The speed of a velocity: the integer square root of the squared length.
pub open spec fn speed_spec(vx: int, vy: int) -> int {
    sqrt_spec(vx * vx + vy * vy)
}

/// The color a particle draws with, under the active policy.
///
/// Direction: hue from the velocity heading, rotated by half the depth;
/// value from clamped speed. Age: hue from age (one five-hundredth of a
/// turn per sub-step) plus the same depth offset; value as Direction.
/// Curl: hue from the wrapped difference of the flow angle at the previous
/// position and a small offset to its right, scaled so half a turn of
/// difference saturates the hue; value from a differently clamped speed.
pub open spec fn color_spec(
    mode: ColorMode,
    vx: int,
    vy: int,
    age: u32,
    z: int,
    nf: NoiseField,
    prev_px: int,
    prev_py: int,
    scale: int,
) -> (int, int, int) {
    match mode {
        ColorMode::Direction => hsv_spec(
            heading_spec(vx, vy) + z / 2,
            FP_ONE as int,
            clamp_spec(speed_spec(vx, vy) / 2, 1000, FP_ONE as int),
        ),
        ColorMode::Age => hsv_spec(
            age * 20 + z / 2,
            FP_ONE as int,
            clamp_spec(speed_spec(vx, vy) / 2, 1000, FP_ONE as int),
        ),
        ColorMode::Curl => {
            let a0 = nf.angle_spec(prev_px, prev_py, scale, z);
            let a1 = nf.angle_spec(prev_px + 20000, prev_py, scale, z);
            let d0 = a1 - a0;
            let da = if d0 > HALF_TURN {
                d0 - FP_ONE
            } else if d0 < -HALF_TURN {
                d0 + FP_ONE
            } else {
                d0
            };
            let hue = if da >= 0 {
                2 * da
            } else {
                -(2 * da)
            };
            hsv_spec(
                hue,
                FP_ONE as int,
                clamp_spec(mul_div_fp_spec(speed_spec(vx, vy), 6000), 2000, FP_ONE as int),
            )
        },
    }
}

/// Computes the speed of a bounded velocity.
fn speed_of(vx: i64, vy: i64) -> (s: i64)
    requires
        -VEL_MAX <= vx <= VEL_MAX,
        -VEL_MAX <= vy <= VEL_MAX,
    ensures
        s == speed_spec(vx as int, vy as int),
        0 <= s <= 150_000_000,
{
    proof {
        assert(0 <= vx * vx <= VEL_MAX * VEL_MAX && 0 <= vy * vy <= VEL_MAX * VEL_MAX)
            by (nonlinear_arith)
            requires -VEL_MAX <= vx <= VEL_MAX && -VEL_MAX <= vy <= VEL_MAX;
    }
    let n = (vx * vx + vy * vy) as u64;
    let s = isqrt64(n);
    proof {
        assert(is_isqrt(n as int, s as int));
        assert(s <= 150_000_000) by (nonlinear_arith)
            requires
                (s as int) * (s as int) <= 2 * (VEL_MAX as int) * (VEL_MAX as int),
                s >= 0;
    }
    s as i64
}

/// Computes `color_spec` for the particle state after a sub-step.
pub fn color_for(
    mode: ColorMode,
    vx: i64,
    vy: i64,
    age: u32,
    z: i64,
    nf: &NoiseField,
    prev_px: i64,
    prev_py: i64,
    scale: i64,
) -> (rgb: (u8, u8, u8))
    requires
        -VEL_MAX <= vx <= VEL_MAX,
        -VEL_MAX <= vy <= VEL_MAX,
        0 <= z <= crate::params::Z_MAX,
        crate::params::SCALE_MIN <= scale <= crate::params::SCALE_MAX,
        -POS_LIMIT <= prev_px <= POS_LIMIT,
        -POS_LIMIT <= prev_py <= POS_LIMIT,
    ensures
        (rgb.0 as int, rgb.1 as int, rgb.2 as int) == color_spec(
            mode,
            vx as int,
            vy as int,
            age,
            z as int,
            *nf,
            prev_px as int,
            prev_py as int,
            scale as int,
        ),
{
    match mode {
        ColorMode::Direction => {
            let hue = heading_turns(vx, vy) + z / 2;
            let v = crate::clamp_i64(speed_of(vx, vy) / 2, 1000, FP_ONE);
            hsv_to_rgb(hue, FP_ONE, v)
        },
        ColorMode::Age => {
            let hue = (age as i64) * 20 + z / 2;
            let v = crate::clamp_i64(speed_of(vx, vy) / 2, 1000, FP_ONE);
            hsv_to_rgb(hue, FP_ONE, v)
        },
        ColorMode::Curl => {
            proof {
                assert(-0x4000_0000_0000 <= prev_px * scale <= 0x4000_0000_0000
                    && -0x4000_0000_0000 <= (prev_px + 20000) * scale <= 0x4000_0000_0000
                    && -0x4000_0000_0000 <= prev_py * scale <= 0x4000_0000_0000)
                    by (nonlinear_arith)
                    requires
                        -POS_LIMIT <= prev_px <= POS_LIMIT,
                        -POS_LIMIT <= prev_py <= POS_LIMIT,
                        5 <= scale <= 500;
            }
            let a0 = nf.sample_angle(prev_px, prev_py, scale, z);
            let a1 = nf.sample_angle(prev_px + 20000, prev_py, scale, z);
            let d0 = a1 - a0;
            let da = if d0 > HALF_TURN {
                d0 - FP_ONE
            } else if d0 < -HALF_TURN {
                d0 + FP_ONE
            } else {
                d0
            };
            let hue = if da >= 0 {
                2 * da
            } else {
                -(2 * da)
            };
            let s = speed_of(vx, vy);
            proof {
                assert(-0x4000_0000_0000 <= s * 6000 <= 0x4000_0000_0000) by (nonlinear_arith)
                    requires 0 <= s <= 150_000_000;
            }
            let v = crate::clamp_i64(mul_div_fp(s, 6000), 2000, FP_ONE);
            hsv_to_rgb(hue, FP_ONE, v)
        },
    }
}

/// The magnitude of a truncating fixed-point product is bounded by the
/// scaled product of the magnitudes.
pub proof fn lemma_mul_div_fp_abs(a: int, b: int, abound: int, bbound: int)
    requires
        -abound <= a <= abound,
        0 <= b <= bbound,
        0 <= abound,
    ensures
        -(abound * bbound / (FP_ONE as int)) <= mul_div_fp_spec(a, b) <= abound * bbound / (
        FP_ONE as int),
{
    let fp = FP_ONE as int;
    let m = abound * bbound;
    assert(-(abound * bbound) <= a * b <= abound * bbound) by (nonlinear_arith)
        requires -abound <= a <= abound && 0 <= b <= bbound && 0 <= abound;
    if a * b >= 0 {
        vstd::arithmetic::div_mod::lemma_div_pos_is_pos(a * b, fp);
        vstd::arithmetic::div_mod::lemma_div_is_ordered(a * b, m, fp);
    } else {
        vstd::arithmetic::div_mod::lemma_div_pos_is_pos(-(a * b), fp);
        vstd::arithmetic::div_mod::lemma_div_is_ordered(-(a * b), m, fp);
    }
    vstd::arithmetic::div_mod::lemma_div_pos_is_pos(m, fp);
}

/// Truncates a fixed-point coordinate to its integer pixel column or row.
pub fn to_pixel(x: i64) -> (r: i64)
    requires
        -POS_LIMIT <= x <= POS_LIMIT,
    ensures
        r == div_trunc(x as int, FP_ONE as int),
        -0x100000 <= r <= 0x100000,
{
    proof {
        if x >= 0 {
            vstd::arithmetic::div_mod::lemma_div_pos_is_pos(x as int, FP_ONE as int);
            vstd::arithmetic::div_mod::lemma_div_is_ordered(x as int, POS_LIMIT as int, FP_ONE as int);
        } else {
            vstd::arithmetic::div_mod::lemma_div_pos_is_pos(-x as int, FP_ONE as int);
            vstd::arithmetic::div_mod::lemma_div_is_ordered(-x as int, POS_LIMIT as int, FP_ONE as int);
        }
    }
    if x >= 0 {
        x / FP_ONE
    } else {
        -((-x) / FP_ONE)
    }
}

/// The state part of one integration sub-step of a live particle: the
/// damped, flow-accelerated velocity, the advanced position, the saturated
/// age, and liveness exactly while the new position stays inside the
/// canvas-plus-margin region.
#[verifier::opaque]
pub open spec fn step_state(p: Particle, nf: NoiseField, params: Params, w: int, h: int) -> Particle {
    let dir = nf.direction_spec(p.px as int, p.py as int, params.scale as int, params.z as int);
    let nvx = mul_div_fp_spec(
        p.vx + mul_div_fp_spec(dir.0, params.force as int),
        params.friction as int,
    );
    let nvy = mul_div_fp_spec(
        p.vy + mul_div_fp_spec(dir.1, params.force as int),
        params.friction as int,
    );
    let npx = p.px + nvx;
    let npy = p.py + nvy;
    Particle {
        px: npx as i64,
        py: npy as i64,
        vx: nvx as i64,
        vy: nvy as i64,
        age: if p.age + 1 > u32::MAX {
            u32::MAX
        } else {
            (p.age + 1) as u32
        },
        alive: inside_margin(npx, npy, w, h),
    }
}

/// A particle after up to `k` sub-steps, stopping early the moment it
/// dies: the per-frame trajectory of one particle.
pub open spec fn run_substeps(
    p: Particle,
    nf: NoiseField,
    params: Params,
    w: int,
    h: int,
    k: nat,
) -> Particle
    decreases k,
{
    if k == 0 || !p.alive {
        p
    } else {
        run_substeps(step_state(p, nf, params, w, h), nf, params, w, h, (k - 1) as nat)
    }
}

/// The buffer after the drawing half of one sub-step: the segment from the
/// particle's position to its `step_state` position, blended additively in
/// the color of the active policy (computed from the post-step velocity and
/// age but the pre-step position).
pub open spec fn step_frame(
    p: Particle,
    nf: NoiseField,
    params: Params,
    w: int,
    h: int,
    f: Seq<u8>,
) -> Seq<u8> {
    let p2 = step_state(p, nf, params, w, h);
    segment_spec(
        f,
        w,
        h,
        div_trunc(p.px as int, FP_ONE as int),
        div_trunc(p.py as int, FP_ONE as int),
        div_trunc(p2.px as int, FP_ONE as int),
        div_trunc(p2.py as int, FP_ONE as int),
        ({
            let rgb = color_spec(
                params.color_mode,
                p2.vx as int,
                p2.vy as int,
                p2.age,
                params.z as int,
                nf,
                p.px as int,
                p.py as int,
                params.scale as int,
            );
            (rgb.0 as u8, rgb.1 as u8, rgb.2 as u8)
        }),
    )
}

/// The buffer after a particle's whole per-frame trajectory: every
/// sub-step draws its traveled segment, and the drawing stops the moment
/// the particle dies. A dead slot leaves the buffer untouched.
pub open spec fn run_substeps_frame(
    p: Particle,
    nf: NoiseField,
    params: Params,
    w: int,
    h: int,
    f: Seq<u8>,
    k: nat,
) -> Seq<u8>
    decreases k,
{
    if k == 0 || !p.alive {
        f
    } else {
        run_substeps_frame(
            step_state(p, nf, params, w, h),
            nf,
            params,
            w,
            h,
            step_frame(p, nf, params, w, h, f),
            (k - 1) as nat,
        )
    }
}

/// A dead slot is inert: however many sub-steps a frame runs, a particle
/// that is not alive keeps its stale state untouched — it neither moves
/// nor draws until a spawn reuses the slot.
pub proof fn lemma_dead_particle_is_inert(
    p: Particle,
    nf: NoiseField,
    params: Params,
    w: int,
    h: int,
    k: nat,
)
    requires
        !p.alive,
    ensures
        run_substeps(p, nf, params, w, h, k) == p,
        forall|f: Seq<u8>| run_substeps_frame(p, nf, params, w, h, f, k) == f,
{
}

/// One integration sub-step of a live particle.
///
/// The flow direction at the current position accelerates the velocity by
/// `force`, friction then damps it, the position advances by the damped
/// velocity, the age rises with saturation, the traveled segment is drawn
/// additively in the color of the active policy (computed from the
/// post-step velocity and age but the pre-step position), and the particle
/// dies exactly if the new position left the canvas-plus-margin region.
pub fn step_particle(
    p: &mut Particle,
    nf: &NoiseField,
    params: &Params,
    w: i64,
    h: i64,
    frame: &mut Vec<u8>,
)
    requires
        old(p).bounded(),
        old(p).alive,
        params.wf(),
        1 <= w <= CANVAS_MAX,
        1 <= h <= CANVAS_MAX,
        old(frame)@.len() == w * h * 4,
    ensures
        final(p).bounded(),
        final(frame)@.len() == old(frame)@.len(),
        *final(p) == step_state(*old(p), *nf, *params, w as int, h as int),
        final(frame)@ == step_frame(*old(p), *nf, *params, w as int, h as int, old(frame)@),
        ({
            let dir = nf.direction_spec(
                old(p).px as int,
                old(p).py as int,
                params.scale as int,
                params.z as int,
            );
            let nvx = mul_div_fp_spec(
                old(p).vx + mul_div_fp_spec(dir.0, params.force as int),
                params.friction as int,
            );
            let nvy = mul_div_fp_spec(
                old(p).vy + mul_div_fp_spec(dir.1, params.force as int),
                params.friction as int,
            );
            let npx = old(p).px + nvx;
            let npy = old(p).py + nvy;
            let nage = if old(p).age + 1 > u32::MAX {
                u32::MAX as int
            } else {
                old(p).age + 1
            };
            &&& final(p).vx == nvx
            &&& final(p).vy == nvy
            &&& final(p).px == npx
            &&& final(p).py == npy
            &&& final(p).age == nage
            &&& final(p).alive == inside_margin(npx, npy, w as int, h as int)
            &&& final(frame)@ == segment_spec(
                old(frame)@,
                w as int,
                h as int,
                div_trunc(old(p).px as int, FP_ONE as int),
                div_trunc(old(p).py as int, FP_ONE as int),
                div_trunc(npx, FP_ONE as int),
                div_trunc(npy, FP_ONE as int),
                ({
                    let rgb = color_spec(
                        params.color_mode,
                        nvx,
                        nvy,
                        nage as u32,
                        params.z as int,
                        *nf,
                        old(p).px as int,
                        old(p).py as int,
                        params.scale as int,
                    );
                    (rgb.0 as u8, rgb.1 as u8, rgb.2 as u8)
                }),
            )
        }),
{
    proof {
        reveal(step_state);
    }
    let prev_px = p.px;
    let prev_py = p.py;
    proof {
        assert(-0x4000_0000_0000 <= prev_px * params.scale <= 0x4000_0000_0000
            && -0x4000_0000_0000 <= prev_py * params.scale <= 0x4000_0000_0000)
            by (nonlinear_arith)
            requires
                -POS_LIMIT <= prev_px <= POS_LIMIT,
                -POS_LIMIT <= prev_py <= POS_LIMIT,
                5 <= params.scale <= 500;
    }
    let dir = nf.sample_direction(prev_px, prev_py, params.scale, params.z);
    proof {
        assert(-FP_ONE * 50000 <= dir.0 * params.force <= FP_ONE * 50000
            && -FP_ONE * 50000 <= dir.1 * params.force <= FP_ONE * 50000) by (nonlinear_arith)
            requires
                -FP_ONE <= dir.0 <= FP_ONE,
                -FP_ONE <= dir.1 <= FP_ONE,
                0 <= params.force <= 50000;
        lemma_mul_div_fp_abs(dir.0 as int, params.force as int, FP_ONE as int, 50000);
        lemma_mul_div_fp_abs(dir.1 as int, params.force as int, FP_ONE as int, 50000);
    }
    let ax = mul_div_fp(dir.0, params.force);
    let ay = mul_div_fp(dir.1, params.force);
    let vx1 = p.vx + ax;
    let vy1 = p.vy + ay;
    proof {
        assert(-100_000_000 <= vx1 <= 100_000_000 && -100_000_000 <= vy1 <= 100_000_000);
        assert(-100_000_000 * 9995 <= (vx1 as int) * (params.friction as int) <= 100_000_000 * 9995
            && -100_000_000 * 9995 <= (vy1 as int) * (params.friction as int) <= 100_000_000
            * 9995) by (nonlinear_arith)
            requires
                -100_000_000 <= vx1 <= 100_000_000,
                -100_000_000 <= vy1 <= 100_000_000,
                0 <= params.friction <= 9995;
        lemma_mul_div_fp_abs(vx1 as int, params.friction as int, 100_000_000, 9995);
        lemma_mul_div_fp_abs(vy1 as int, params.friction as int, 100_000_000, 9995);
    }
    let nvx = mul_div_fp(vx1, params.friction);
    let nvy = mul_div_fp(vy1, params.friction);
    let npx = p.px + nvx;
    let npy = p.py + nvy;
    let nage = p.age.saturating_add(1);
    p.vx = nvx;
    p.vy = nvy;
    p.px = npx;
    p.py = npy;
    p.age = nage;
    let rgb = color_for(
        params.color_mode,
        nvx,
        nvy,
        nage,
        params.z,
        nf,
        prev_px,
        prev_py,
        params.scale,
    );
    draw_segment_additive(
        frame,
        w,
        h,
        to_pixel(prev_px),
        to_pixel(prev_py),
        to_pixel(npx),
        to_pixel(npy),
        rgb,
    );
    if npx < -MARGIN_FP || npx > w * FP_ONE + MARGIN_FP || npy < -MARGIN_FP || npy > h * FP_ONE
        + MARGIN_FP {
        p.alive = false;
    }
}

} // verus!
