//! Color policy: converting particle state to RGB through a fixed-point
//! HSV-to-RGB conversion.
//!
//! Hue is a turn fraction (`FP_ONE` units per revolution); saturation and
//! value range over `[0, FP_ONE]`. Channel bytes are produced by the
//! classic sector-wise HSV formula, scaled to `[0, 255]`.

use vstd::prelude::*;
use crate::FP_ONE;

verus! {

/// The selectable color policies.
#[derive(Clone, Copy, PartialEq, Eq, Structural, Debug)]
pub enum ColorMode {
    /// Hue follows the velocity heading.
    Direction,
    /// Hue follows the particle's age.
    Age,
    /// Hue follows the local rotational change of the noise angle field.
    Curl,
}

impl ColorMode {
    /// The next policy in the fixed cycle
    /// Direction -> Age -> Curl -> Direction.
    pub open spec fn next_spec(self) -> ColorMode {
        match self {
            ColorMode::Direction => ColorMode::Age,
            ColorMode::Age => ColorMode::Curl,
            ColorMode::Curl => ColorMode::Direction,
        }
    }

    /// Advances to the next policy in the cycle.
    pub fn next(self) -> (r: ColorMode)
        ensures
            r == self.next_spec(),
    {
        match self {
            ColorMode::Direction => ColorMode::Age,
            ColorMode::Age => ColorMode::Curl,
            ColorMode::Curl => ColorMode::Direction,
        }
    }
}

/// Wraps an arbitrary hue onto the canonical turn `[0, FP_ONE)`.
pub open spec fn wrap_turn(h: int) -> int {
    h % (FP_ONE as int)
}

/// Clamps into `[0, FP_ONE]`, the saturation/value domain.
pub open spec fn clamp_unit(x: int) -> int {
    if x < 0 {
        0
    } else if x > FP_ONE {
        FP_ONE as int
    } else {
        x
    }
}

/// Scales a fixed-point fraction in `[0, FP_ONE]` to a channel byte.
pub open spec fn to_byte(x: int) -> int
    recommends
        0 <= x <= FP_ONE,
{
    x * 255 / (FP_ONE as int)
}

/// The sector-wise HSV-to-RGB conversion on fixed-point inputs: the hue is
/// wrapped onto one turn, saturation and value are clamped to `[0, FP_ONE]`,
/// and the triple `(r, g, b)` is the standard piecewise formula scaled to
/// bytes.
pub open spec fn hsv_spec(h: int, s0: int, v0: int) -> (int, int, int) {
    let s = clamp_unit(s0);
    let v = clamp_unit(v0);
    let hw = wrap_turn(h);
    let i = hw * 6 / (FP_ONE as int);
    let f = hw * 6 - i * FP_ONE;
    let p = v * (FP_ONE - s) / (FP_ONE as int);
    let q = v * (FP_ONE - f * s / (FP_ONE as int)) / (FP_ONE as int);
    let t = v * (FP_ONE - (FP_ONE - f) * s / (FP_ONE as int)) / (FP_ONE as int);
    let rgb = if i == 0 {
        (v, t, p)
    } else if i == 1 {
        (q, v, p)
    } else if i == 2 {
        (p, v, t)
    } else if i == 3 {
        (p, q, v)
    } else if i == 4 {
        (t, p, v)
    } else {
        (v, p, q)
    };
    (to_byte(rgb.0), to_byte(rgb.1), to_byte(rgb.2))
}

/// At full saturation and full value, every hue on the canonical turn maps
/// to a fully saturated color: one channel (the sector's low channel) is 0,
/// one channel (the sector's high channel) is 255, and the remaining channel
/// ramps linearly with the within-sector fraction — so a hue near 0 gives
/// near-pure red.
pub proof fn lemma_hue_sector(h: int)
    requires
        0 <= h < FP_ONE,
    ensures
        ({
            let rgb = hsv_spec(h, FP_ONE as int, FP_ONE as int);
            let i = h * 6 / (FP_ONE as int);
            let f = h * 6 - i * FP_ONE;
            &&& (rgb.0 == 0 || rgb.1 == 0 || rgb.2 == 0)
            &&& (rgb.0 == 255 || rgb.1 == 255 || rgb.2 == 255)
            &&& (i == 0 ==> rgb == (255int, to_byte(f), 0int))
            &&& (i == 1 ==> rgb == (to_byte(FP_ONE - f), 255int, 0int))
            &&& (i == 2 ==> rgb == (0int, 255int, to_byte(f)))
            &&& (i == 3 ==> rgb == (0int, to_byte(FP_ONE - f), 255int))
            &&& (i == 4 ==> rgb == (to_byte(f), 0int, 255int))
            &&& (i == 5 ==> rgb == (255int, 0int, to_byte(FP_ONE - f)))
            &&& 0 <= i <= 5
        }),
{
    let fp = FP_ONE as int;
    assert(wrap_turn(h) == h) by {
        vstd::arithmetic::div_mod::lemma_small_mod(h as nat, FP_ONE as nat);
    }
    let i = h * 6 / fp;
    let f = h * 6 - i * fp;
    assert(0 <= i <= 5 && 0 <= f < FP_ONE) by (nonlinear_arith)
        requires 0 <= h < FP_ONE && i == h * 6 / (FP_ONE as int) && f == h * 6 - i * FP_ONE;
    assert(fp * 0 / fp == 0) by (nonlinear_arith)
        requires fp == 10000;
    assert(f * fp / fp == f) by (nonlinear_arith)
        requires 0 <= f && fp == 10000;
    assert(fp * (fp - f) / fp == fp - f) by (nonlinear_arith)
        requires 0 <= f <= fp && fp == 10000;
    assert(fp * f / fp == f) by (nonlinear_arith)
        requires 0 <= f && fp == 10000;
    assert((fp - f) * fp / fp == fp - f) by (nonlinear_arith)
        requires 0 <= f <= fp && fp == 10000;
    assert(fp * 255 / fp == 255) by (nonlinear_arith)
        requires fp == 10000;
    assert(to_byte(fp) == 255);
    assert(to_byte(0) == 0);
}

proof fn lemma_frac_scale(x: int, y: int)
    requires
        0 <= x <= FP_ONE,
        0 <= y <= FP_ONE,
    ensures
        0 <= x * y <= FP_ONE * FP_ONE,
        0 <= x * y / (FP_ONE as int) <= FP_ONE,
        0 <= x * 255 <= FP_ONE * 255,
        0 <= x * 255 / (FP_ONE as int) <= 255,
{
    assert(0 <= x * y <= FP_ONE * FP_ONE) by (nonlinear_arith)
        requires 0 <= x <= FP_ONE && 0 <= y <= FP_ONE;
    vstd::arithmetic::div_mod::lemma_div_pos_is_pos(x * y, FP_ONE as int);
    vstd::arithmetic::div_mod::lemma_div_is_ordered(x * y, FP_ONE * FP_ONE, FP_ONE as int);
    assert((FP_ONE as int) * FP_ONE / (FP_ONE as int) == FP_ONE) by (nonlinear_arith);
    assert(0 <= x * 255 <= FP_ONE * 255) by (nonlinear_arith)
        requires 0 <= x <= FP_ONE;
    vstd::arithmetic::div_mod::lemma_div_pos_is_pos(x * 255, FP_ONE as int);
    vstd::arithmetic::div_mod::lemma_div_is_ordered(x * 255, FP_ONE * 255, FP_ONE as int);
    assert((FP_ONE as int) * 255 / (FP_ONE as int) == 255) by (nonlinear_arith);
}

/// Converts fixed-point HSV to an RGB byte triple; computes `hsv_spec`
/// exactly.
#[verifier::rlimit(60)]
pub fn hsv_to_rgb(h: i64, s0: i64, v0: i64) -> (rgb: (u8, u8, u8))
    ensures
        (rgb.0 as int, rgb.1 as int, rgb.2 as int) == hsv_spec(h as int, s0 as int, v0 as int),
{
    let s = crate::clamp_i64(s0, 0, FP_ONE);
    let v = crate::clamp_i64(v0, 0, FP_ONE);
    let m = h % FP_ONE;
    let hw = if m < 0 { m + FP_ONE } else { m };
    proof {
        assert(hw == wrap_turn(h as int));
    }
    let i = hw * 6 / FP_ONE;
    let f = hw * 6 - i * FP_ONE;
    proof {
        assert(0 <= i <= 5 && 0 <= f < FP_ONE) by (nonlinear_arith)
            requires 0 <= hw < FP_ONE && i == hw * 6 / (FP_ONE as int)
                && f == hw * 6 - i * FP_ONE;
        lemma_frac_scale(f as int, s as int);
        lemma_frac_scale((FP_ONE - f) as int, s as int);
        lemma_frac_scale(v as int, (FP_ONE - s) as int);
        lemma_frac_scale(v as int, (FP_ONE - f * s / (FP_ONE as int)) as int);
        lemma_frac_scale(v as int, (FP_ONE - (FP_ONE - f) * s / (FP_ONE as int)) as int);
    }
    let p = v * (FP_ONE - s) / FP_ONE;
    let q = v * (FP_ONE - f * s / FP_ONE) / FP_ONE;
    let t = v * (FP_ONE - (FP_ONE - f) * s / FP_ONE) / FP_ONE;
    proof {
        lemma_frac_scale(p as int, FP_ONE as int);
        lemma_frac_scale(q as int, FP_ONE as int);
        lemma_frac_scale(t as int, FP_ONE as int);
        lemma_frac_scale(v as int, FP_ONE as int);
    }
    let rgb: (i64, i64, i64) = if i == 0 {
        (v, t, p)
    } else if i == 1 {
        (q, v, p)
    } else if i == 2 {
        (p, v, t)
    } else if i == 3 {
        (p, q, v)
    } else {
        if i == 4 {
            (t, p, v)
        } else {
            (v, p, q)
        }
    };
    (
        (rgb.0 * 255 / FP_ONE) as u8,
        (rgb.1 * 255 / FP_ONE) as u8,
        (rgb.2 * 255 / FP_ONE) as u8,
    )
}

} // verus!
