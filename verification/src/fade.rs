//! Temporal decay: once per rendered frame every R/G/B channel of the
//! buffer is attenuated by the factor `(FP_ONE - fade) / FP_ONE`,
//! truncating, and every alpha byte is forced to 255. With `fade` at 0 the
//! multiplier would be one, so the buffer is left untouched.

use vstd::prelude::*;
use crate::FP_ONE;

verus! {

/// One attenuated channel byte: `b` scaled by `(FP_ONE - fade) / FP_ONE`,
/// truncating toward zero.
pub open spec fn fade_channel(b: int, fade: int) -> int
    recommends
        0 <= b <= 255,
        0 <= fade <= FP_ONE,
{
    b * (FP_ONE - fade) / (FP_ONE as int)
}

/// The faded buffer: color channels attenuated, every fourth byte (alpha)
/// forced to 255. A non-positive fade leaves the buffer exactly as it was.
pub open spec fn fade_spec(f: Seq<u8>, fade: int) -> Seq<u8> {
    if fade <= 0 {
        f
    } else {
        Seq::new(
            f.len(),
            |i: int|
                if i % 4 == 3 {
                    255u8
                } else {
                    fade_channel(f[i] as int, fade) as u8
                },
        )
    }
}

/// An attenuated channel stays a byte and never grows.
pub proof fn lemma_fade_channel_bounds(b: int, fade: int)
    requires
        0 <= b <= 255,
        0 <= fade <= FP_ONE,
    ensures
        0 <= fade_channel(b, fade) <= b,
{
    let fp = FP_ONE as int;
    assert(0 <= b * (fp - fade) <= b * fp) by (nonlinear_arith)
        requires 0 <= b && 0 <= fade <= fp;
    vstd::arithmetic::div_mod::lemma_div_pos_is_pos(b * (fp - fade), fp);
    vstd::arithmetic::div_mod::lemma_div_is_ordered(b * (fp - fade), b * fp, fp);
    assert(b * fp / fp == b) by (nonlinear_arith)
        requires 0 <= b && fp == 10000;
}

/// With any positive fade, a positive channel strictly darkens; a zero
/// channel stays zero. Repeated fading therefore drives every color channel
/// of the buffer to zero: the image converges to opaque black.
pub proof fn lemma_fade_strictly_darkens(b: int, fade: int)
    requires
        0 <= b <= 255,
        1 <= fade <= FP_ONE,
    ensures
        b > 0 ==> fade_channel(b, fade) < b,
        b == 0 ==> fade_channel(b, fade) == 0,
{
    let fp = FP_ONE as int;
    if b > 0 {
        assert(b * (fp - fade) <= b * fp - b) by (nonlinear_arith)
            requires 1 <= fade && 0 < b;
        vstd::arithmetic::div_mod::lemma_div_is_ordered(b * (fp - fade), b * fp - b, fp);
        assert((b * fp - b) / fp == b - 1) by (nonlinear_arith)
            requires 0 < b <= fp && fp == 10000;
        assert(0 <= b * (fp - fade)) by (nonlinear_arith)
            requires 0 < b && fade <= fp;
        vstd::arithmetic::div_mod::lemma_div_pos_is_pos(b * (fp - fade), fp);
    } else {
        assert(0 * (fp - fade) == 0) by (nonlinear_arith);
    }
}

/// The channel value after `k` successive fades.
pub open spec fn iter_fade(b: int, fade: int, k: nat) -> int
    decreases k,
{
    if k == 0 {
        b
    } else {
        fade_channel(iter_fade(b, fade, (k - 1) as nat), fade)
    }
}

proof fn lemma_iter_fade_bounds(b: int, fade: int, k: nat)
    requires
        0 <= b <= 255,
        1 <= fade <= FP_ONE,
    ensures
        0 <= iter_fade(b, fade, k) <= b,
        iter_fade(b, fade, k) <= 255,
    decreases k,
{
    if k > 0 {
        lemma_iter_fade_bounds(b, fade, (k - 1) as nat);
        lemma_fade_channel_bounds(iter_fade(b, fade, (k - 1) as nat), fade);
    }
}

/// Convergence to black: after at most `b` fades with any positive
/// coefficient, a channel that started at `b` has reached zero and stays
/// there.
pub proof fn lemma_fade_converges(b: int, fade: int, k: nat)
    requires
        0 <= b <= 255,
        1 <= fade <= FP_ONE,
        k >= b,
    ensures
        iter_fade(b, fade, k) == 0,
    decreases k,
{
    if b == 0 {
        if k > 0 {
            lemma_fade_converges(b, fade, (k - 1) as nat);
            lemma_fade_strictly_darkens(0, fade);
        }
    } else {
        // k >= b >= 1: one fade strictly shrinks the channel, and the rest
        // finish the job by induction on the smaller starting value.
        let b1 = fade_channel(b, fade);
        lemma_fade_channel_bounds(b, fade);
        lemma_fade_strictly_darkens(b, fade);
        lemma_iter_shift(b, fade, k);
        lemma_fade_mono_start(b1, b - 1, fade, (k - 1) as nat);
        lemma_fade_converges(b - 1, fade, (k - 1) as nat);
        lemma_iter_fade_bounds(b1, fade, (k - 1) as nat);
    }
}

/// One fade followed by `k - 1` more is the same as `k` fades.
proof fn lemma_iter_shift(b: int, fade: int, k: nat)
    requires
        k >= 1,
    ensures
        iter_fade(b, fade, k) == iter_fade(fade_channel(b, fade), fade, (k - 1) as nat),
    decreases k,
{
    if k == 1 {
        assert(iter_fade(b, fade, 1) == fade_channel(iter_fade(b, fade, 0), fade));
    } else {
        lemma_iter_shift(b, fade, (k - 1) as nat);
        assert(iter_fade(b, fade, k) == fade_channel(iter_fade(b, fade, (k - 1) as nat), fade));
        assert(iter_fade(fade_channel(b, fade), fade, (k - 1) as nat) == fade_channel(
            iter_fade(fade_channel(b, fade), fade, (k - 2) as nat),
            fade,
        ));
    }
}

/// Fading preserves channel order: a dimmer start never overtakes a
/// brighter one.
proof fn lemma_fade_mono_start(a: int, b: int, fade: int, k: nat)
    requires
        0 <= a <= b <= 255,
        1 <= fade <= FP_ONE,
    ensures
        iter_fade(a, fade, k) <= iter_fade(b, fade, k),
    decreases k,
{
    if k > 0 {
        lemma_fade_mono_start(a, b, fade, (k - 1) as nat);
        let a1 = iter_fade(a, fade, (k - 1) as nat);
        let b1 = iter_fade(b, fade, (k - 1) as nat);
        lemma_iter_fade_bounds(a, fade, (k - 1) as nat);
        lemma_iter_fade_bounds(b, fade, (k - 1) as nat);
        let fp = FP_ONE as int;
        assert(a1 * (fp - fade) <= b1 * (fp - fade)) by (nonlinear_arith)
            requires 0 <= a1 <= b1 && fade <= fp;
        vstd::arithmetic::div_mod::lemma_div_is_ordered(
            a1 * (fp - fade),
            b1 * (fp - fade),
            fp,
        );
    }
}

/// The buffer after `k` successive fades.
pub open spec fn iter_fade_frame(f: Seq<u8>, fade: int, k: nat) -> Seq<u8>
    decreases k,
{
    if k == 0 {
        f
    } else {
        fade_spec(iter_fade_frame(f, fade, (k - 1) as nat), fade)
    }
}

proof fn lemma_iter_fade_frame_pointwise(f: Seq<u8>, fade: int, k: nat)
    requires
        1 <= fade <= FP_ONE,
    ensures
        iter_fade_frame(f, fade, k).len() == f.len(),
        forall|i: int|
            0 <= i < f.len() && i % 4 == 3 && k >= 1 ==> iter_fade_frame(f, fade, k)[i] == 255u8,
        forall|i: int|
            0 <= i < f.len() && i % 4 != 3 ==> iter_fade_frame(f, fade, k)[i] as int == iter_fade(
                f[i] as int,
                fade,
                k,
            ),
    decreases k,
{
    if k > 0 {
        lemma_iter_fade_frame_pointwise(f, fade, (k - 1) as nat);
        let prev = iter_fade_frame(f, fade, (k - 1) as nat);
        assert forall|i: int| 0 <= i < f.len() && i % 4 != 3 implies iter_fade_frame(f, fade, k)[i]
            as int == iter_fade(f[i] as int, fade, k) by {
            lemma_iter_fade_bounds(f[i] as int, fade, (k - 1) as nat);
            lemma_fade_channel_bounds(prev[i] as int, fade);
        }
    }
}

/// Convergence of the whole image to opaque black: with any positive fade
/// coefficient, 255 or more applications leave every color channel of
/// every pixel at zero and every alpha byte at 255, whatever the buffer
/// held.
pub proof fn lemma_fade_frame_converges(f: Seq<u8>, fade: int, k: nat)
    requires
        1 <= fade <= FP_ONE,
        k >= 255,
    ensures
        iter_fade_frame(f, fade, k).len() == f.len(),
        forall|i: int|
            0 <= i < f.len() ==> iter_fade_frame(f, fade, k)[i] == if i % 4 == 3 {
                255u8
            } else {
                0u8
            },
{
    lemma_iter_fade_frame_pointwise(f, fade, k);
    assert forall|i: int| 0 <= i < f.len() && i % 4 != 3 implies iter_fade_frame(f, fade, k)[i]
        == 0u8 by {
        lemma_fade_converges(f[i] as int, fade, k);
    }
}

/// Applies one frame of temporal decay to the buffer: every color channel
/// is attenuated by `(FP_ONE - fade) / FP_ONE` and alpha is forced opaque;
/// a fade of zero changes nothing.
pub fn apply_fade(frame: &mut Vec<u8>, fade: i64)
    requires
        0 <= fade <= FP_ONE,
        old(frame)@.len() % 4 == 0,
    ensures
        final(frame)@ == fade_spec(old(frame)@, fade as int),
        final(frame)@.len() == old(frame)@.len(),
{
    if fade <= 0 {
        return ;
    }
    let ghost orig = frame@;
    let mult = FP_ONE - fade;
    let mut i: usize = 0;
    while i < frame.len()
        invariant
            0 < fade <= FP_ONE,
            mult == FP_ONE - fade,
            i % 4 == 0,
            i <= frame@.len(),
            frame@.len() == orig.len(),
            orig.len() % 4 == 0,
            forall|j: int|
                0 <= j < i ==> frame@[j] == fade_spec(orig, fade as int)[j],
            forall|j: int| i <= j < orig.len() ==> frame@[j] == orig[j],
        decreases frame@.len() - i,
    {
        proof {
            assert(orig.len() % 4 == 0);
            assert(i + 3 < orig.len());
            lemma_fade_channel_bounds(orig[i as int] as int, fade as int);
            lemma_fade_channel_bounds(orig[i as int + 1] as int, fade as int);
            lemma_fade_channel_bounds(orig[i as int + 2] as int, fade as int);
        }
        let b0 = frame[i];
        let b1 = frame[i + 1];
        let b2 = frame[i + 2];
        frame[i] = ((b0 as i64) * mult / FP_ONE) as u8;
        frame[i + 1] = ((b1 as i64) * mult / FP_ONE) as u8;
        frame[i + 2] = ((b2 as i64) * mult / FP_ONE) as u8;
        frame[i + 3] = 255;
        i = i + 4;
    }
    proof {
        assert(frame@ =~= fade_spec(orig, fade as int));
    }
}

} // verus!
