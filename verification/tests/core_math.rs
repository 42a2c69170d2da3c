use flowfield::color::hsv_to_rgb;
use flowfield::fade::apply_fade;
use flowfield::mathfp::{cos_fp, heading_turns, isqrt64, sin_fp};
use flowfield::noisefield::{noise3, NoiseField};
use flowfield::raster::draw_segment_additive;

const FP: i64 = 10000;

#[test]
fn hsv_pure_hues() {
    // Hue 0 at full saturation and value is pure red.
    assert_eq!(hsv_to_rgb(0, FP, FP), (255, 0, 0));
    // One third of a turn is green.
    assert_eq!(hsv_to_rgb(3334, FP, FP), (0, 255, 0));
    // Half a turn is cyan.
    assert_eq!(hsv_to_rgb(5000, FP, FP), (0, 255, 255));
    // Two thirds of a turn is blue.
    assert_eq!(hsv_to_rgb(6667, FP, FP), (0, 0, 255));
}

#[test]
fn hsv_sector_pattern_full_sv() {
    // Across the whole turn: one channel 0, one channel 255.
    let mut h: i64 = 0;
    while h < FP {
        let (r, g, b) = hsv_to_rgb(h, FP, FP);
        assert!(r == 0 || g == 0 || b == 0, "hue {h} lacks a zero channel");
        assert!(r == 255 || g == 255 || b == 255, "hue {h} lacks a full channel");
        h += 7;
    }
}

#[test]
fn hsv_wraps_hue() {
    assert_eq!(hsv_to_rgb(-2500, FP, FP), hsv_to_rgb(7500, FP, FP));
    assert_eq!(hsv_to_rgb(12500, FP, FP), hsv_to_rgb(2500, FP, FP));
}

#[test]
fn hsv_zero_saturation_is_grey() {
    assert_eq!(hsv_to_rgb(1234, 0, FP), (255, 255, 255));
    assert_eq!(hsv_to_rgb(4321, 0, 5000), (127, 127, 127));
}

#[test]
fn hsv_clamps_saturation_and_value() {
    assert_eq!(hsv_to_rgb(0, 20000, 20000), hsv_to_rgb(0, FP, FP));
    assert_eq!(hsv_to_rgb(0, -5, -5), (0, 0, 0));
}

#[test]
fn draw_saturates_at_full_brightness() {
    // Drawing (250,250,250) twice onto a zeroed pixel gives (255,255,255):
    // additive blending saturates and never wraps.
    let mut frame = vec![0u8; 4 * 4 * 4];
    draw_segment_additive(&mut frame, 4, 4, 1, 1, 1, 1, (250, 250, 250));
    assert_eq!(&frame[20..24], &[250, 250, 250, 255]);
    draw_segment_additive(&mut frame, 4, 4, 1, 1, 1, 1, (250, 250, 250));
    assert_eq!(&frame[20..24], &[255, 255, 255, 255]);
}

#[test]
fn draw_order_does_not_matter() {
    let mut a = vec![0u8; 4 * 4 * 4];
    let mut b = vec![0u8; 4 * 4 * 4];
    draw_segment_additive(&mut a, 4, 4, 2, 2, 2, 2, (200, 10, 0));
    draw_segment_additive(&mut a, 4, 4, 2, 2, 2, 2, (100, 30, 5));
    draw_segment_additive(&mut b, 4, 4, 2, 2, 2, 2, (100, 30, 5));
    draw_segment_additive(&mut b, 4, 4, 2, 2, 2, 2, (200, 10, 0));
    assert_eq!(a, b);
    assert_eq!(&a[40..44], &[255, 40, 5, 255]);
}

#[test]
fn draw_line_touches_expected_pixels() {
    let mut frame = vec![0u8; 4 * 4 * 4];
    draw_segment_additive(&mut frame, 4, 4, 0, 0, 3, 0, (1, 2, 3));
    for x in 0..4usize {
        assert_eq!(&frame[4 * x..4 * x + 4], &[1, 2, 3, 255]);
    }
    // The other rows stay untouched.
    for i in 16..64 {
        assert_eq!(frame[i], 0);
    }
}

#[test]
fn draw_outside_bounds_is_skipped() {
    let mut frame = vec![0u8; 4 * 4 * 4];
    let before = frame.clone();
    draw_segment_additive(&mut frame, 4, 4, -9, -9, -5, -9, (9, 9, 9));
    assert_eq!(frame, before);
    // A segment crossing the canvas writes only the inside part.
    draw_segment_additive(&mut frame, 4, 4, -2, 1, 5, 1, (7, 7, 7));
    assert_eq!(&frame[16..20], &[7, 7, 7, 255]);
}

#[test]
fn fade_zero_is_identity() {
    let mut frame = vec![17u8, 34, 51, 0, 200, 100, 50, 7];
    let before = frame.clone();
    apply_fade(&mut frame, 0);
    assert_eq!(frame, before);
}

#[test]
fn fade_attenuates_and_forces_alpha() {
    let mut frame = vec![100u8, 200, 255, 0];
    apply_fade(&mut frame, 1000);
    // Each channel is scaled by 9000/10000, truncating; alpha goes opaque.
    assert_eq!(frame, vec![90, 180, 229, 255]);
}

#[test]
fn fade_converges_to_black() {
    let mut frame = vec![255u8, 128, 3, 9];
    for _ in 0..255 {
        apply_fade(&mut frame, 1);
    }
    assert_eq!(frame, vec![0, 0, 0, 255]);
}

#[test]
fn trig_quarter_points() {
    assert_eq!(sin_fp(0), 0);
    assert_eq!(sin_fp(2500), FP);
    assert_eq!(sin_fp(7500), -FP);
    assert_eq!(cos_fp(0), FP);
    assert_eq!(cos_fp(5000), -FP);
    assert_eq!(cos_fp(2500), 0);
}

#[test]
fn heading_octants() {
    assert_eq!(heading_turns(0, 0), 0);
    assert_eq!(heading_turns(1, 0), 0);
    assert_eq!(heading_turns(1, 1), 1250);
    assert_eq!(heading_turns(0, 1), 2500);
    assert_eq!(heading_turns(-1, 0), 5000);
    assert_eq!(heading_turns(0, -1), 7500);
    assert_eq!(heading_turns(1, -1), 8750);
}

#[test]
fn isqrt_exact_and_truncated() {
    assert_eq!(isqrt64(0), 0);
    assert_eq!(isqrt64(1), 1);
    assert_eq!(isqrt64(15), 3);
    assert_eq!(isqrt64(16), 4);
    assert_eq!(isqrt64(10_000_000_000), 100_000);
    assert_eq!(isqrt64(u64::MAX), 0xffff_ffff);
}

#[test]
fn noise_is_bounded_and_deterministic() {
    let probes: [(i64, i64, i64); 5] = [
        (0, 0, 0),
        (123_456, -654_321, 42),
        (-1, 1, 99_999),
        (5_000, 5_000, 5_000),
        (999_999_999, -999_999_999, 123),
    ];
    for &(x, y, z) in probes.iter() {
        let a = noise3(42, x, y, z);
        let b = noise3(42, x, y, z);
        assert_eq!(a, b);
        assert!(-FP <= a && a <= FP, "noise out of range at {x},{y},{z}: {a}");
    }
    // A different seed gives a different field somewhere.
    let mut differs = false;
    for &(x, y, z) in probes.iter() {
        if noise3(42, x, y, z) != noise3(43, x, y, z) {
            differs = true;
        }
    }
    assert!(differs);
}

#[test]
fn same_seed_same_field() {
    let a = NoiseField::new(42);
    let b = NoiseField::new(42);
    for i in 0..20i64 {
        let p = i * 123_457;
        assert_eq!(
            a.sample_direction(p, -p, 40, 7 * i),
            b.sample_direction(p, -p, 40, 7 * i)
        );
        assert_eq!(a.sample_angle(p, p, 500, i), b.sample_angle(p, p, 500, i));
    }
}

#[test]
fn sample_angle_is_canonical() {
    let nf = NoiseField::new(7);
    for i in 0..50i64 {
        let a = nf.sample_angle(i * 999_983, i * 31_337, 40, i);
        assert!((0..FP).contains(&a));
    }
}
