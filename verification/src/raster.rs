//! Line rasterization: integer Bresenham stepping with additive, saturating
//! per-channel blending into an RGBA frame buffer.
//!
//! The buffer is row-major, origin top-left, four bytes per pixel. Every
//! visited pixel inside bounds has its R/G/B channels increased with
//! saturation at 255 and its alpha forced to 255; pixels outside bounds are
//! silently skipped. Drawing touches nothing else.

use vstd::prelude::*;

verus! {

/// Saturating byte addition: the channel sum, capped at 255.
pub open spec fn sat_add(a: int, b: int) -> int {
    if a + b > 255 {
        255
    } else {
        a + b
    }
}

/// Blending one color into one pixel of the buffer `f` (row-major RGBA,
/// `w` by `h`): each color channel is added with saturation, alpha is forced
/// to 255. A pixel out of bounds leaves the buffer unchanged.
pub open spec fn blend_at(f: Seq<u8>, w: int, h: int, x: int, y: int, rgb: (u8, u8, u8)) -> Seq<
    u8,
> {
    if 0 <= x < w && 0 <= y < h && f.len() == w * h * 4 {
        let idx = 4 * (y * w + x);
        f.update(idx, sat_add(f[idx] as int, rgb.0 as int) as u8).update(
            idx + 1,
            sat_add(f[idx + 1] as int, rgb.1 as int) as u8,
        ).update(idx + 2, sat_add(f[idx + 2] as int, rgb.2 as int) as u8).update(idx + 3, 255u8)
    } else {
        f
    }
}

/// The buffer after walking `m` Bresenham steps from `(x, y)` with error
/// term `err`, blending the color at every visited pixel (the starting pixel
/// included). `dx >= 0` and `dy <= 0` are the classic axis deltas, `sx` and
/// `sy` the per-axis step directions.
pub open spec fn walk_rec(
    f: Seq<u8>,
    w: int,
    h: int,
    x: int,
    y: int,
    err: int,
    dx: int,
    dy: int,
    sx: int,
    sy: int,
    rgb: (u8, u8, u8),
    m: nat,
) -> Seq<u8>
    decreases m,
{
    let f1 = blend_at(f, w, h, x, y, rgb);
    if m == 0 {
        f1
    } else {
        let e2 = 2 * err;
        let x2 = if e2 >= dy { x + sx } else { x };
        let err1 = if e2 >= dy { err + dy } else { err };
        let y2 = if e2 <= dx { y + sy } else { y };
        let err2 = if e2 <= dx { err1 + dx } else { err1 };
        walk_rec(f1, w, h, x2, y2, err2, dx, dy, sx, sy, rgb, (m - 1) as nat)
    }
}

/// The buffer after drawing the whole segment from `(x0, y0)` to
/// `(x1, y1)`: the Bresenham walk over `max(|x1 - x0|, |y1 - y0|)` steps.
pub open spec fn segment_spec(
    f: Seq<u8>,
    w: int,
    h: int,
    x0: int,
    y0: int,
    x1: int,
    y1: int,
    rgb: (u8, u8, u8),
) -> Seq<u8> {
    let dx = if x1 >= x0 {
        x1 - x0
    } else {
        x0 - x1
    };
    let dy = if y1 >= y0 {
        y0 - y1
    } else {
        y1 - y0
    };
    let sx: int = if x0 < x1 {
        1
    } else {
        -1
    };
    let sy: int = if y0 < y1 {
        1
    } else {
        -1
    };
    let m = if dx >= -dy {
        dx
    } else {
        -dy
    };
    walk_rec(f, w, h, x0, y0, dx + dy, dx, dy, sx, sy, rgb, m as nat)
}

/// Saturating addition never wraps and is order-independent: blending two
/// amounts into a channel one after the other gives the capped total,
/// whichever comes first.
pub proof fn lemma_sat_add_accumulates(a: int, x: int, y: int)
    requires
        0 <= a <= 255,
        0 <= x <= 255,
        0 <= y <= 255,
    ensures
        sat_add(sat_add(a, x), y) == if a + x + y > 255 {
            255int
        } else {
            a + x + y
        },
        sat_add(sat_add(a, x), y) == sat_add(sat_add(a, y), x),
        sat_add(sat_add(a, x), y) <= 255,
{
}

proof fn lemma_blend_at_pointwise(f: Seq<u8>, w: int, h: int, x: int, y: int, rgb: (u8, u8, u8))
    ensures
        blend_at(f, w, h, x, y, rgb).len() == f.len(),
        forall|i: int| 0 <= i < f.len() && i % 4 != 3 ==> f[i] <= blend_at(f, w, h, x, y, rgb)[i],
        forall|i: int|
            0 <= i < f.len() && i % 4 == 3 ==> blend_at(f, w, h, x, y, rgb)[i] == f[i] || blend_at(
                f,
                w,
                h,
                x,
                y,
                rgb,
            )[i] == 255,
{
    if 0 <= x < w && 0 <= y < h && f.len() == w * h * 4 {
        let idx = 4 * (y * w + x);
        assert(0 <= idx && idx + 3 < w * h * 4 && idx % 4 == 0 && (idx + 1) % 4 == 1 && (idx + 2)
            % 4 == 2 && (idx + 3) % 4 == 3) by (nonlinear_arith)
            requires 0 <= x < w && 0 <= y < h && idx == 4 * (y * w + x);
    }
}

/// Additive drawing never wraps: over the whole Bresenham walk, every
/// color channel of the buffer only grows (saturating at 255), every alpha
/// byte is either untouched or forced opaque, and the buffer keeps its
/// length.
proof fn lemma_walk_no_wrap(
    f: Seq<u8>,
    w: int,
    h: int,
    x: int,
    y: int,
    err: int,
    dx: int,
    dy: int,
    sx: int,
    sy: int,
    rgb: (u8, u8, u8),
    m: nat,
)
    ensures
        walk_rec(f, w, h, x, y, err, dx, dy, sx, sy, rgb, m).len() == f.len(),
        forall|i: int|
            0 <= i < f.len() && i % 4 != 3 ==> f[i] <= walk_rec(
                f,
                w,
                h,
                x,
                y,
                err,
                dx,
                dy,
                sx,
                sy,
                rgb,
                m,
            )[i],
        forall|i: int|
            0 <= i < f.len() && i % 4 == 3 ==> walk_rec(f, w, h, x, y, err, dx, dy, sx, sy, rgb, m)[i]
                == f[i] || walk_rec(f, w, h, x, y, err, dx, dy, sx, sy, rgb, m)[i] == 255,
    decreases m,
{
    lemma_blend_at_pointwise(f, w, h, x, y, rgb);
    if m > 0 {
        let f1 = blend_at(f, w, h, x, y, rgb);
        let e2 = 2 * err;
        let x2 = if e2 >= dy { x + sx } else { x };
        let err1 = if e2 >= dy { err + dy } else { err };
        let y2 = if e2 <= dx { y + sy } else { y };
        let err2 = if e2 <= dx { err1 + dx } else { err1 };
        lemma_walk_no_wrap(f1, w, h, x2, y2, err2, dx, dy, sx, sy, rgb, (m - 1) as nat);
    }
}

/// Additive compositing is saturating in general: a drawn segment can only
/// brighten the pixels it visits — each R/G/B byte grows monotonically and
/// caps at 255, never wrapping — while each alpha byte is either untouched
/// or forced fully opaque, and no byte outside the buffer's length is
/// produced.
pub proof fn lemma_segment_never_wraps(
    f: Seq<u8>,
    w: int,
    h: int,
    x0: int,
    y0: int,
    x1: int,
    y1: int,
    rgb: (u8, u8, u8),
)
    ensures
        segment_spec(f, w, h, x0, y0, x1, y1, rgb).len() == f.len(),
        forall|i: int|
            0 <= i < f.len() && i % 4 != 3 ==> f[i] <= segment_spec(f, w, h, x0, y0, x1, y1, rgb)[i],
        forall|i: int|
            0 <= i < f.len() && i % 4 == 3 ==> segment_spec(f, w, h, x0, y0, x1, y1, rgb)[i] == f[i]
                || segment_spec(f, w, h, x0, y0, x1, y1, rgb)[i] == 255,
{
    let dx = if x1 >= x0 {
        x1 - x0
    } else {
        x0 - x1
    };
    let dy = if y1 >= y0 {
        y0 - y1
    } else {
        y1 - y0
    };
    let sx: int = if x0 < x1 {
        1
    } else {
        -1
    };
    let sy: int = if y0 < y1 {
        1
    } else {
        -1
    };
    let m = if dx >= -dy {
        dx
    } else {
        -dy
    };
    lemma_walk_no_wrap(f, w, h, x0, y0, dx + dy, dx, dy, sx, sy, rgb, m as nat);
}

/// The pixels the Bresenham walk visits, the starting pixel included.
pub open spec fn walk_points(
    x: int,
    y: int,
    err: int,
    dx: int,
    dy: int,
    sx: int,
    sy: int,
    m: nat,
) -> Seq<(int, int)>
    decreases m,
{
    let here = seq![(x, y)];
    if m == 0 {
        here
    } else {
        let e2 = 2 * err;
        let x2 = if e2 >= dy { x + sx } else { x };
        let err1 = if e2 >= dy { err + dy } else { err };
        let y2 = if e2 <= dx { y + sy } else { y };
        let err2 = if e2 <= dx { err1 + dx } else { err1 };
        here + walk_points(x2, y2, err2, dx, dy, sx, sy, (m - 1) as nat)
    }
}

/// The pixels on the Bresenham line from `(x0, y0)` to `(x1, y1)`: exactly
/// those that `segment_spec` blends.
pub open spec fn segment_points(x0: int, y0: int, x1: int, y1: int) -> Seq<(int, int)> {
    let dx = if x1 >= x0 {
        x1 - x0
    } else {
        x0 - x1
    };
    let dy = if y1 >= y0 {
        y0 - y1
    } else {
        y1 - y0
    };
    let sx: int = if x0 < x1 {
        1
    } else {
        -1
    };
    let sy: int = if y0 < y1 {
        1
    } else {
        -1
    };
    let m = if dx >= -dy {
        dx
    } else {
        -dy
    };
    walk_points(x0, y0, dx + dy, dx, dy, sx, sy, m as nat)
}

/// How far along its direction the walk has come at a pixel; every
/// Bresenham step strictly increases it, so no pixel repeats.
pub open spec fn progress(sx: int, sy: int, p: (int, int)) -> int {
    sx * p.0 + sy * p.1
}

proof fn lemma_walk_points_progress(
    x: int,
    y: int,
    err: int,
    dx: int,
    dy: int,
    sx: int,
    sy: int,
    m: nat,
)
    requires
        dx >= 0,
        dy <= 0,
        sx == 1 || sx == -1,
        sy == 1 || sy == -1,
    ensures
        walk_points(x, y, err, dx, dy, sx, sy, m).len() == m + 1,
        walk_points(x, y, err, dx, dy, sx, sy, m)[0] == (x, y),
        forall|k: int|
            1 <= k <= m ==> progress(sx, sy, walk_points(x, y, err, dx, dy, sx, sy, m)[k])
                > progress(sx, sy, (x, y)),
    decreases m,
{
    if m > 0 {
        let e2 = 2 * err;
        let x2 = if e2 >= dy { x + sx } else { x };
        let err1 = if e2 >= dy { err + dy } else { err };
        let y2 = if e2 <= dx { y + sy } else { y };
        let err2 = if e2 <= dx { err1 + dx } else { err1 };
        lemma_walk_points_progress(x2, y2, err2, dx, dy, sx, sy, (m - 1) as nat);
        assert(sx * sx == 1 && sy * sy == 1) by (nonlinear_arith)
            requires (sx == 1 || sx == -1) && (sy == 1 || sy == -1);
        assert(progress(sx, sy, (x2, y2)) > progress(sx, sy, (x, y)));
        let pts = walk_points(x, y, err, dx, dy, sx, sy, m);
        let tail = walk_points(x2, y2, err2, dx, dy, sx, sy, (m - 1) as nat);
        assert forall|k: int| 1 <= k <= m implies progress(sx, sy, pts[k]) > progress(
            sx,
            sy,
            (x, y),
        ) by {
            assert(pts[k] == tail[k - 1]);
        }
    }
}

/// The byte ranges of two different in-bounds pixels never overlap.
proof fn lemma_pixel_bytes_disjoint(w: int, h: int, ax: int, ay: int, bx: int, by: int)
    requires
        0 <= ax < w,
        0 <= ay < h,
        0 <= bx < w,
        0 <= by < h,
        (ax, ay) != ((bx, by)),
    ensures
        4 * (ay * w + ax) + 3 < 4 * (by * w + bx) || 4 * (by * w + bx) + 3 < 4 * (ay * w + ax),
{
    assert(ay * w + ax != by * w + bx) by (nonlinear_arith)
        requires
            0 <= ax < w && 0 <= bx < w && 0 <= ay && 0 <= by && (ax != bx || ay != by);
}

/// A walk leaves every byte of a pixel it never visits exactly as it was.
proof fn lemma_walk_untouched(
    f: Seq<u8>,
    w: int,
    h: int,
    x: int,
    y: int,
    err: int,
    dx: int,
    dy: int,
    sx: int,
    sy: int,
    rgb: (u8, u8, u8),
    m: nat,
    qx: int,
    qy: int,
)
    requires
        f.len() == w * h * 4,
        0 <= qx < w,
        0 <= qy < h,
        forall|k: int|
            0 <= k < walk_points(x, y, err, dx, dy, sx, sy, m).len() ==> walk_points(
                x,
                y,
                err,
                dx,
                dy,
                sx,
                sy,
                m,
            )[k] != ((qx, qy)),
    ensures
        forall|c: int|
            0 <= c < 4 ==> #[trigger] walk_rec(f, w, h, x, y, err, dx, dy, sx, sy, rgb, m)[4 * (qy
                * w + qx) + c] == f[4 * (qy * w + qx) + c],
    decreases m,
{
    let pts = walk_points(x, y, err, dx, dy, sx, sy, m);
    assert(pts[0] == (x, y));
    let f1 = blend_at(f, w, h, x, y, rgb);
    assert(0 <= 4 * (qy * w + qx) && 4 * (qy * w + qx) + 3 < w * h * 4) by (nonlinear_arith)
        requires 0 <= qx < w && 0 <= qy < h;
    if 0 <= x < w && 0 <= y < h {
        lemma_pixel_bytes_disjoint(w, h, x, y, qx, qy);
        assert(0 <= 4 * (y * w + x) && 4 * (y * w + x) + 3 < w * h * 4) by (nonlinear_arith)
            requires 0 <= x < w && 0 <= y < h;
    }
    assert(forall|c: int|
        0 <= c < 4 ==> #[trigger] f1[4 * (qy * w + qx) + c] == f[4 * (qy * w + qx) + c]);
    if m > 0 {
        let e2 = 2 * err;
        let x2 = if e2 >= dy { x + sx } else { x };
        let err1 = if e2 >= dy { err + dy } else { err };
        let y2 = if e2 <= dx { y + sy } else { y };
        let err2 = if e2 <= dx { err1 + dx } else { err1 };
        let tail = walk_points(x2, y2, err2, dx, dy, sx, sy, (m - 1) as nat);
        assert(pts == seq![(x, y)] + tail);
        assert forall|k: int| 0 <= k < tail.len() implies tail[k] != ((qx, qy)) by {
            assert(tail[k] == pts[k + 1]);
        }
        lemma_walk_untouched(f1, w, h, x2, y2, err2, dx, dy, sx, sy, rgb, (m - 1) as nat, qx, qy);
        assert(walk_rec(f, w, h, x, y, err, dx, dy, sx, sy, rgb, m) == walk_rec(
            f1,
            w,
            h,
            x2,
            y2,
            err2,
            dx,
            dy,
            sx,
            sy,
            rgb,
            (m - 1) as nat,
        ));
        assert forall|c: int|
            0 <= c < 4 implies #[trigger] walk_rec(f, w, h, x, y, err, dx, dy, sx, sy, rgb, m)[4 * (
            qy * w + qx) + c] == f[4 * (qy * w + qx) + c] by {
            assert(walk_rec(f1, w, h, x2, y2, err2, dx, dy, sx, sy, rgb, (m - 1) as nat)[4 * (qy * w
                + qx) + c] == f1[4 * (qy * w + qx) + c]);
        }
    } else {
        assert(walk_rec(f, w, h, x, y, err, dx, dy, sx, sy, rgb, m) == f1);
    }
}

/// Every visited in-bounds pixel of a walk ends exactly one saturating
/// blend brighter: the Bresenham walk never revisits a pixel.
proof fn lemma_walk_pointwise(
    f: Seq<u8>,
    w: int,
    h: int,
    x: int,
    y: int,
    err: int,
    dx: int,
    dy: int,
    sx: int,
    sy: int,
    rgb: (u8, u8, u8),
    m: nat,
)
    requires
        f.len() == w * h * 4,
        dx >= 0,
        dy <= 0,
        sx == 1 || sx == -1,
        sy == 1 || sy == -1,
    ensures
        forall|k: int|
            0 <= k < walk_points(x, y, err, dx, dy, sx, sy, m).len() && 0 <= (#[trigger] walk_points(
                x,
                y,
                err,
                dx,
                dy,
                sx,
                sy,
                m,
            )[k]).0 < w && 0 <= walk_points(x, y, err, dx, dy, sx, sy, m)[k].1 < h ==> ({
                let p = walk_points(x, y, err, dx, dy, sx, sy, m)[k];
                let idx = 4 * (p.1 * w + p.0);
                let out = walk_rec(f, w, h, x, y, err, dx, dy, sx, sy, rgb, m);
                &&& out[idx] as int == sat_add(f[idx] as int, rgb.0 as int)
                &&& out[idx + 1] as int == sat_add(f[idx + 1] as int, rgb.1 as int)
                &&& out[idx + 2] as int == sat_add(f[idx + 2] as int, rgb.2 as int)
                &&& out[idx + 3] == 255
            }),
    decreases m,
{
    let pts = walk_points(x, y, err, dx, dy, sx, sy, m);
    let out = walk_rec(f, w, h, x, y, err, dx, dy, sx, sy, rgb, m);
    let f1 = blend_at(f, w, h, x, y, rgb);
    lemma_walk_points_progress(x, y, err, dx, dy, sx, sy, m);
    if 0 <= x < w && 0 <= y < h {
        assert(0 <= 4 * (y * w + x) && 4 * (y * w + x) + 3 < w * h * 4) by (nonlinear_arith)
            requires 0 <= x < w && 0 <= y < h;
    }
    if m == 0 {
        assert(out == f1);
    } else {
        let e2 = 2 * err;
        let x2 = if e2 >= dy { x + sx } else { x };
        let err1 = if e2 >= dy { err + dy } else { err };
        let y2 = if e2 <= dx { y + sy } else { y };
        let err2 = if e2 <= dx { err1 + dx } else { err1 };
        let tail = walk_points(x2, y2, err2, dx, dy, sx, sy, (m - 1) as nat);
        assert(pts == seq![(x, y)] + tail);
        assert(out == walk_rec(f1, w, h, x2, y2, err2, dx, dy, sx, sy, rgb, (m - 1) as nat));
        lemma_walk_pointwise(f1, w, h, x2, y2, err2, dx, dy, sx, sy, rgb, (m - 1) as nat);
        lemma_walk_points_progress(x2, y2, err2, dx, dy, sx, sy, (m - 1) as nat);
        // The head pixel is never revisited: every tail point has strictly
        // larger progress.
        if 0 <= x < w && 0 <= y < h {
            assert forall|k: int| 0 <= k < tail.len() implies tail[k] != ((x, y)) by {
                assert(tail[k] == pts[k + 1]);
                assert(progress(sx, sy, pts[k + 1]) > progress(sx, sy, (x, y)));
            }
            lemma_walk_untouched(
                f1, w, h, x2, y2, err2, dx, dy, sx, sy, rgb, (m - 1) as nat, x, y,
            );
            let idx0 = 4 * (y * w + x);
            assert(walk_rec(f1, w, h, x2, y2, err2, dx, dy, sx, sy, rgb, (m - 1) as nat)[4 * (y * w
                + x) + 0] == f1[4 * (y * w + x) + 0]);
            assert(walk_rec(f1, w, h, x2, y2, err2, dx, dy, sx, sy, rgb, (m - 1) as nat)[4 * (y * w
                + x) + 1] == f1[4 * (y * w + x) + 1]);
            assert(walk_rec(f1, w, h, x2, y2, err2, dx, dy, sx, sy, rgb, (m - 1) as nat)[4 * (y * w
                + x) + 2] == f1[4 * (y * w + x) + 2]);
            assert(walk_rec(f1, w, h, x2, y2, err2, dx, dy, sx, sy, rgb, (m - 1) as nat)[4 * (y * w
                + x) + 3] == f1[4 * (y * w + x) + 3]);
            assert(out[idx0] as int == sat_add(f[idx0] as int, rgb.0 as int));
            assert(out[idx0 + 1] as int == sat_add(f[idx0 + 1] as int, rgb.1 as int));
            assert(out[idx0 + 2] as int == sat_add(f[idx0 + 2] as int, rgb.2 as int));
            assert(out[idx0 + 3] == 255);
        }
        // Later pixels were untouched by the head blend, so their single
        // blend starts from the original bytes.
        assert forall|k: int|
            1 <= k < pts.len() && 0 <= (#[trigger] pts[k]).0 < w && 0 <= pts[k].1 < h implies ({
                let p = pts[k];
                let idx = 4 * (p.1 * w + p.0);
                &&& out[idx] as int == sat_add(f[idx] as int, rgb.0 as int)
                &&& out[idx + 1] as int == sat_add(f[idx + 1] as int, rgb.1 as int)
                &&& out[idx + 2] as int == sat_add(f[idx + 2] as int, rgb.2 as int)
                &&& out[idx + 3] == 255
            }) by {
            let p = pts[k];
            let pa = p.0;
            let pb = p.1;
            let idx = 4 * (pb * w + pa);
            assert(p == tail[k - 1]);
            assert(0 <= idx && idx + 3 < w * h * 4) by (nonlinear_arith)
                requires 0 <= pa < w && 0 <= pb < h && idx == 4 * (pb * w + pa);
            if 0 <= x < w && 0 <= y < h {
                assert(progress(sx, sy, p) > progress(sx, sy, (x, y)));
                lemma_pixel_bytes_disjoint(w, h, p.0, p.1, x, y);
            }
            assert(f1[idx] == f[idx] && f1[idx + 1] == f[idx + 1] && f1[idx + 2] == f[idx + 2]
                && f1[idx + 3] == f[idx + 3]);
            let sub = walk_rec(f1, w, h, x2, y2, err2, dx, dy, sx, sy, rgb, (m - 1) as nat);
            assert(sub[idx] as int == sat_add(f1[idx] as int, rgb.0 as int) && sub[idx + 1] as int
                == sat_add(f1[idx + 1] as int, rgb.1 as int) && sub[idx + 2] as int == sat_add(
                f1[idx + 2] as int,
                rgb.2 as int,
            ) && sub[idx + 3] == 255);
        }
    }
}

/// P2 in pointwise form: drawing a segment gives every visited in-bounds
/// pixel exactly one saturating blend — each R/G/B byte becomes
/// `min(old + channel, 255)`, never wrapping, and its alpha byte becomes
/// 255 — while every in-bounds pixel off the line keeps all four bytes
/// unchanged. The walk visits each pixel at most once.
pub proof fn lemma_segment_pointwise(
    f: Seq<u8>,
    w: int,
    h: int,
    x0: int,
    y0: int,
    x1: int,
    y1: int,
    rgb: (u8, u8, u8),
)
    requires
        f.len() == w * h * 4,
        0 < w,
        0 < h,
    ensures
        forall|k: int|
            0 <= k < segment_points(x0, y0, x1, y1).len() && 0 <= (#[trigger] segment_points(
                x0,
                y0,
                x1,
                y1,
            )[k]).0 < w && 0 <= segment_points(x0, y0, x1, y1)[k].1 < h ==> ({
                let p = segment_points(x0, y0, x1, y1)[k];
                let idx = 4 * (p.1 * w + p.0);
                let out = segment_spec(f, w, h, x0, y0, x1, y1, rgb);
                &&& out[idx] as int == sat_add(f[idx] as int, rgb.0 as int)
                &&& out[idx + 1] as int == sat_add(f[idx + 1] as int, rgb.1 as int)
                &&& out[idx + 2] as int == sat_add(f[idx + 2] as int, rgb.2 as int)
                &&& out[idx + 3] == 255
            }),
        forall|qx: int, qy: int, c: int|
            0 <= qx < w && 0 <= qy < h && 0 <= c < 4 && (forall|k: int|
                0 <= k < segment_points(x0, y0, x1, y1).len() ==> segment_points(x0, y0, x1, y1)[k]
                    != ((qx, qy))) ==> #[trigger] segment_spec(f, w, h, x0, y0, x1, y1, rgb)[4 * (
            qy * w + qx) + c] == f[4 * (qy * w + qx) + c],
{
    let dx = if x1 >= x0 {
        x1 - x0
    } else {
        x0 - x1
    };
    let dy = if y1 >= y0 {
        y0 - y1
    } else {
        y1 - y0
    };
    let sx: int = if x0 < x1 {
        1
    } else {
        -1
    };
    let sy: int = if y0 < y1 {
        1
    } else {
        -1
    };
    let m = if dx >= -dy {
        dx
    } else {
        -dy
    };
    lemma_walk_pointwise(f, w, h, x0, y0, dx + dy, dx, dy, sx, sy, rgb, m as nat);
    assert forall|qx: int, qy: int, c: int|
        0 <= qx < w && 0 <= qy < h && 0 <= c < 4 && (forall|k: int|
            0 <= k < segment_points(x0, y0, x1, y1).len() ==> segment_points(x0, y0, x1, y1)[k]
                != ((qx, qy))) implies #[trigger] segment_spec(f, w, h, x0, y0, x1, y1, rgb)[4 * (
        qy * w + qx) + c] == f[4 * (qy * w + qx) + c] by {
        assert(segment_points(x0, y0, x1, y1) == walk_points(
            x0,
            y0,
            dx + dy,
            dx,
            dy,
            sx,
            sy,
            m as nat,
        ));
        lemma_walk_untouched(f, w, h, x0, y0, dx + dy, dx, dy, sx, sy, rgb, m as nat, qx, qy);
    }
}

fn sat_add_u8(a: u8, b: u8) -> (r: u8)
    ensures
        r as int == sat_add(a as int, b as int),
{
    a.saturating_add(b)
}

/// Blends one color into the pixel `(x, y)` if it lies inside the `w` by
/// `h` bounds; out-of-bounds pixels are skipped without error.
fn blend_pixel(frame: &mut Vec<u8>, w: i64, h: i64, x: i64, y: i64, rgb: (u8, u8, u8))
    requires
        0 < w <= 0x4000,
        0 < h <= 0x4000,
        old(frame)@.len() == w * h * 4,
    ensures
        final(frame)@ == blend_at(old(frame)@, w as int, h as int, x as int, y as int, rgb),
        final(frame)@.len() == old(frame)@.len(),
{
    if 0 <= x && x < w && 0 <= y && y < h {
        proof {
            assert(y * w + x < w * h && 0 <= y * w + x && w * h <= 0x1000_0000)
                by (nonlinear_arith)
                requires 0 <= x < w <= 0x4000 && 0 <= y < h <= 0x4000;
        }
        let idx: usize = (4 * (y * w + x)) as usize;
        let r0 = sat_add_u8(frame[idx], rgb.0);
        let r1 = sat_add_u8(frame[idx + 1], rgb.1);
        let r2 = sat_add_u8(frame[idx + 2], rgb.2);
        frame[idx] = r0;
        frame[idx + 1] = r1;
        frame[idx + 2] = r2;
        frame[idx + 3] = 255;
    }
}

/// Draws the line segment between the integer pixel coordinates
/// `(x0, y0)` and `(x1, y1)` into the buffer with additive saturating
/// blending: exactly the Bresenham walk of `segment_spec`.
pub fn draw_segment_additive(
    frame: &mut Vec<u8>,
    w: i64,
    h: i64,
    x0: i64,
    y0: i64,
    x1: i64,
    y1: i64,
    rgb: (u8, u8, u8),
)
    requires
        0 < w <= 0x4000,
        0 < h <= 0x4000,
        old(frame)@.len() == w * h * 4,
        -0x100000 <= x0 <= 0x100000,
        -0x100000 <= y0 <= 0x100000,
        -0x100000 <= x1 <= 0x100000,
        -0x100000 <= y1 <= 0x100000,
    ensures
        final(frame)@ == segment_spec(
            old(frame)@,
            w as int,
            h as int,
            x0 as int,
            y0 as int,
            x1 as int,
            y1 as int,
            rgb,
        ),
        final(frame)@.len() == old(frame)@.len(),
{
    let ghost target = segment_spec(
        old(frame)@,
        w as int,
        h as int,
        x0 as int,
        y0 as int,
        x1 as int,
        y1 as int,
        rgb,
    );
    let dx = if x1 >= x0 {
        x1 - x0
    } else {
        x0 - x1
    };
    let dy = if y1 >= y0 {
        y0 - y1
    } else {
        y1 - y0
    };
    let sx: i64 = if x0 < x1 {
        1
    } else {
        -1
    };
    let sy: i64 = if y0 < y1 {
        1
    } else {
        -1
    };
    let n = if dx >= -dy {
        dx
    } else {
        -dy
    };
    let mut x = x0;
    let mut y = y0;
    let mut err = dx + dy;
    let mut m = n;
    while m > 0
        invariant
            0 <= m <= n,
            n <= 0x200000,
            0 < w <= 0x4000,
            0 < h <= 0x4000,
            frame@.len() == w * h * 4,
            -0x100000 - (n - m) <= x <= 0x100000 + (n - m),
            -0x100000 - (n - m) <= y <= 0x100000 + (n - m),
            -0x400000 <= err <= 0x400000,
            dx >= 0,
            dy <= 0,
            dx <= 0x200000,
            -0x200000 <= dy,
            sx == 1 || sx == -1,
            sy == 1 || sy == -1,
            walk_rec(
                frame@,
                w as int,
                h as int,
                x as int,
                y as int,
                err as int,
                dx as int,
                dy as int,
                sx as int,
                sy as int,
                rgb,
                m as nat,
            ) == target,
        decreases m,
    {
        let ghost pre = frame@;
        blend_pixel(frame, w, h, x, y, rgb);
        let e2 = 2 * err;
        if e2 >= dy {
            err = err + dy;
            x = x + sx;
        }
        if e2 <= dx {
            err = err + dx;
            y = y + sy;
        }
        m = m - 1;
    }
    blend_pixel(frame, w, h, x, y, rgb);
    proof {
        assert(frame@ == target);
    }
}

} // verus!
