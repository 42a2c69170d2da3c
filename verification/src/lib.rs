//! A particle-advection visualizer core: particles are pushed through a
//! time-varying flow field derived from seeded 3D coherent noise and leave
//! additively blended trails in a persistent RGBA frame buffer that fades
//! toward black each frame.
//!
//! All simulation quantities (positions, velocities, tunable parameters,
//! noise samples, hues) are fixed-point integers counted in ten-thousandths
//! of a unit, so that every numeric policy in the pipeline is exact and
//! provable.

use vstd::prelude::*;

pub mod color;
pub mod fade;
pub mod mathfp;
pub mod noisefield;
pub mod params;
pub mod particles;
pub mod raster;
pub mod rng;
pub mod world;

verus! {

/// One fixed-point unit: values are counted in ten-thousandths.
pub const FP_ONE: i64 = 10000;

/// `x` clamped into the inclusive range `[lo, hi]`.
pub open spec fn clamp_spec(x: int, lo: int, hi: int) -> int {
    if x < lo {
        lo
    } else if x > hi {
        hi
    } else {
        x
    }
}

/// Clamps `x` into the inclusive range `[lo, hi]`.
pub fn clamp_i64(x: i64, lo: i64, hi: i64) -> (r: i64)
    requires
        lo <= hi,
    ensures
        r == clamp_spec(x as int, lo as int, hi as int),
        lo <= r <= hi,
{
    if x < lo {
        lo
    } else if x > hi {
        hi
    } else {
        x
    }
}

} // verus!
