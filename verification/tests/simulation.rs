use flowfield::color::ColorMode;
use flowfield::noisefield::{mul_div_fp, NoiseField};
use flowfield::params::{Command, Params};
use flowfield::particles::Particle;
use flowfield::world::World;

const FP: i64 = 10000;

fn dead_at(px: i64, py: i64) -> Particle {
    Particle { px, py, vx: 0, vy: 0, age: 9, alive: false }
}

#[test]
fn new_world_is_black_and_opaque() {
    let w = World::new(8, 8);
    assert_eq!(w.frame.len(), 8 * 8 * 4);
    for (i, b) in w.frame.iter().enumerate() {
        assert_eq!(*b, if i % 4 == 3 { 255 } else { 0 });
    }
    assert_eq!(w.noise.seed, 42);
    assert_eq!(w.params.spawn_count, 2);
    assert!(!w.params.paused);
}

#[test]
fn spawn_reuses_dead_slots_first() {
    let mut w = World::new(16, 16);
    w.params.spawn_count = 2;
    w.particles.push(dead_at(1, 1));
    w.particles.push(Particle { px: 5, py: 5, vx: 3, vy: 4, age: 7, alive: true });
    w.particles.push(dead_at(2, 2));
    w.particles.push(dead_at(3, 3));
    w.spawn_particles();
    // Exactly min(2, 3) = 2 dead slots are revived, in order; nothing appends.
    assert_eq!(w.particles.len(), 4);
    assert!(w.particles[0].alive && w.particles[0].age == 0 && w.particles[0].vx == 0);
    assert!(w.particles[1].alive && w.particles[1].age == 7);
    assert!(w.particles[2].alive && w.particles[2].age == 0);
    assert!(!w.particles[3].alive);
    for p in [&w.particles[0], &w.particles[2]] {
        assert!((0..16 * FP).contains(&p.px) && (0..16 * FP).contains(&p.py));
    }
}

#[test]
fn spawn_appends_after_reuse() {
    let mut w = World::new(16, 16);
    w.params.spawn_count = 3;
    w.particles.push(dead_at(1, 1));
    w.particles.push(Particle { px: 5, py: 5, vx: 0, vy: 0, age: 1, alive: true });
    w.spawn_particles();
    // One dead slot reused, two appended: 2 + (3 - 1) = 4 slots.
    assert_eq!(w.particles.len(), 4);
    assert!(w.particles.iter().all(|p| p.alive));
}

#[test]
fn spawn_zero_is_a_no_op() {
    let mut w = World::new(16, 16);
    w.params.spawn_count = 0;
    w.particles.push(dead_at(1, 1));
    w.spawn_particles();
    assert_eq!(w.particles.len(), 1);
    assert!(!w.particles[0].alive);
}

#[test]
fn particle_leaving_margin_dies_and_stays_untouched() {
    let mut w = World::new(16, 16);
    w.params.spawn_count = 0;
    w.params.steps_per_frame = 1;
    // Outside the 16 px + 10 px margin region on x (16*FP + 100_000 = 260_000).
    w.particles.push(Particle { px: 600_000, py: 5 * FP, vx: 0, vy: 0, age: 0, alive: true });
    let stale = dead_at(123, 456);
    w.particles.push(stale);
    w.step_all();
    assert!(!w.particles[0].alive, "particle outside the margin must retire");
    // The dead slot is untouched by stepping.
    let p = &w.particles[1];
    assert_eq!((p.px, p.py, p.vx, p.vy, p.age, p.alive), (123, 456, 0, 0, 9, false));
}

#[test]
fn dead_slots_draw_nothing() {
    let mut w = World::new(8, 8);
    w.params.spawn_count = 0;
    w.params.steps_per_frame = 5;
    w.particles.push(dead_at(3 * FP, 3 * FP));
    let before = w.frame.clone();
    w.step_all();
    assert_eq!(w.frame, before);
}

#[test]
fn live_particles_stay_inside_margin() {
    let mut w = World::new(16, 16);
    w.params.spawn_count = 8;
    w.spawn_particles();
    w.step_all();
    for p in w.particles.iter() {
        if p.alive {
            assert!((-100_000..=16 * FP + 100_000).contains(&p.px));
            assert!((-100_000..=16 * FP + 100_000).contains(&p.py));
        }
    }
}

#[test]
fn scale_clamps_both_ways() {
    let mut p = Params::initial(1);
    for _ in 0..200 {
        p.apply_command(Command::ScaleUp);
        assert!((5..=500).contains(&p.scale));
    }
    assert_eq!(p.scale, 500);
    for _ in 0..200 {
        p.apply_command(Command::ScaleDown);
        assert!((5..=500).contains(&p.scale));
    }
    assert_eq!(p.scale, 5);
}

#[test]
fn z_step_clamps_both_ways() {
    let mut p = Params::initial(1);
    for _ in 0..200 {
        p.apply_command(Command::ZStepUp);
        assert!((1..=500).contains(&p.z_step));
    }
    assert_eq!(p.z_step, 500);
    for _ in 0..200 {
        p.apply_command(Command::ZStepDown);
    }
    assert_eq!(p.z_step, 1);
}

#[test]
fn force_friction_fade_clamps() {
    let mut p = Params::initial(1);
    for _ in 0..300 {
        p.apply_command(Command::ForceUp);
        p.apply_command(Command::FrictionUp);
        p.apply_command(Command::FadeUp);
    }
    assert_eq!(p.force, 50000);
    assert_eq!(p.friction, 9995);
    assert_eq!(p.fade, 2000);
    for _ in 0..300 {
        p.apply_command(Command::ForceDown);
        p.apply_command(Command::FrictionDown);
        p.apply_command(Command::FadeDown);
    }
    assert_eq!(p.force, 500);
    assert_eq!(p.friction, 9000);
    assert_eq!(p.fade, 0);
}

#[test]
fn friction_steps_are_exact() {
    let mut p = Params::initial(1);
    p.apply_command(Command::FrictionDown);
    assert_eq!(p.friction, 9830);
    p.apply_command(Command::FrictionUp);
    assert_eq!(p.friction, 9850);
}

#[test]
fn color_mode_cycles() {
    let mut p = Params::initial(1);
    assert!(matches!(p.color_mode, ColorMode::Direction));
    p.apply_command(Command::CycleColorMode);
    assert!(matches!(p.color_mode, ColorMode::Age));
    p.apply_command(Command::CycleColorMode);
    assert!(matches!(p.color_mode, ColorMode::Curl));
    p.apply_command(Command::CycleColorMode);
    assert!(matches!(p.color_mode, ColorMode::Direction));
}

#[test]
fn pause_toggles_and_paused_update_only_fades() {
    let mut w = World::new(8, 8);
    w.apply_command(Command::TogglePause);
    assert!(w.params.paused);
    w.particles.push(dead_at(7, 7));
    let parts_before = w.particles.len();
    w.update();
    assert_eq!(w.particles.len(), parts_before);
    assert!(!w.particles[0].alive);
    w.apply_command(Command::TogglePause);
    assert!(!w.params.paused);
}

#[test]
fn update_advances_depth() {
    let mut w = World::new(8, 8);
    w.params.spawn_count = 1;
    w.params.steps_per_frame = 1;
    assert_eq!(w.params.z, 0);
    w.update();
    assert_eq!(w.params.z, 40);
    w.update();
    assert_eq!(w.params.z, 80);
}

#[test]
fn reseed_is_deterministic_in_the_drawn_seed() {
    // Two identically constructed worlds share the random stream, so
    // reseeding walks both noise fields through the same seeds.
    let mut a = World::new(8, 8);
    let mut b = World::new(8, 8);
    a.reseed_noise();
    b.reseed_noise();
    assert_eq!(a.noise.seed, b.noise.seed);
    let s = a.noise.seed;
    let other = NoiseField::new(s);
    assert_eq!(a.noise.sample_angle(12345, 678, 40, 0), other.sample_angle(12345, 678, 40, 0));
}

#[test]
fn end_to_end_single_substep() {
    // Canvas 800x800, noise seed 42, depth 0, scale 0.004, one particle at
    // (400, 400) with zero velocity, one sub-step with force 0.8 and
    // friction 0.985: the displacement follows the documented fixed-point
    // formulas exactly.
    let mut w = World::new(800, 800);
    assert_eq!(
        (w.params.scale, w.params.force, w.params.friction, w.params.z),
        (40, 8000, 9850, 0)
    );
    w.params.spawn_count = 0;
    w.params.steps_per_frame = 1;
    let start = 400 * FP;
    w.particles.push(Particle { px: start, py: start, vx: 0, vy: 0, age: 0, alive: true });
    let (dx, dy) = w.noise.sample_direction(start, start, 40, 0);
    let evx = mul_div_fp(mul_div_fp(dx, 8000), 9850);
    let evy = mul_div_fp(mul_div_fp(dy, 8000), 9850);
    w.step_all();
    let p = &w.particles[0];
    assert_eq!((p.vx, p.vy), (evx, evy));
    assert_eq!((p.px, p.py), (start + evx, start + evy));
    assert_eq!(p.age, 1);
    assert!(p.alive);
    // The traveled segment was blended: the starting pixel is opaque and lit.
    let idx = (400 * 800 + 400) * 4;
    let px = &w.frame[idx..idx + 4];
    assert_eq!(px[3], 255);
    assert!(px[0] > 0 || px[1] > 0 || px[2] > 0);
}

#[test]
fn resize_rejects_zero_and_keeps_state() {
    let mut w = World::new(8, 8);
    w.particles.push(dead_at(3, 4));
    w.frame[0] = 99;
    let frame_before = w.frame.clone();
    w.resize(0, 0);
    assert_eq!((w.width, w.height), (8, 8));
    assert_eq!(w.frame, frame_before);
    w.resize(0, 16);
    assert_eq!((w.width, w.height), (8, 8));
    assert_eq!(w.frame, frame_before);
    assert_eq!(w.particles.len(), 1);
}

#[test]
fn resize_reallocates_and_clears() {
    let mut w = World::new(8, 8);
    w.frame[0] = 99;
    w.particles.push(dead_at(3, 4));
    let scale_before = w.params.scale;
    w.resize(16, 4);
    assert_eq!((w.width, w.height), (16, 4));
    assert_eq!(w.frame.len(), 16 * 4 * 4);
    for (i, b) in w.frame.iter().enumerate() {
        assert_eq!(*b, if i % 4 == 3 { 255 } else { 0 });
    }
    // Particles and parameters survive the resize.
    assert_eq!(w.particles.len(), 1);
    assert_eq!(w.params.scale, scale_before);
}

#[test]
fn snapshot_forces_alpha_and_keeps_colors() {
    let mut w = World::new(4, 4);
    w.frame[0] = 12;
    w.frame[3] = 0;
    w.frame[5] = 200;
    let snap = w.snapshot_rgba();
    assert_eq!(snap.len(), w.frame.len());
    for (i, b) in snap.iter().enumerate() {
        if i % 4 == 3 {
            assert_eq!(*b, 255);
        } else {
            assert_eq!(*b, w.frame[i]);
        }
    }
}

#[test]
fn frame_counter_counts_presented_frames() {
    let mut w = World::new(4, 4);
    assert_eq!(w.frame_index, 0);
    w.frame_presented();
    w.frame_presented();
    assert_eq!(w.frame_index, 2);
}

#[test]
fn update_spawns_into_dead_slots_then_appends() {
    let mut w = World::new(8, 8);
    w.params.spawn_count = 3;
    w.params.steps_per_frame = 1;
    w.particles.push(dead_at(1, 1));
    w.particles.push(dead_at(2, 2));
    w.update();
    // Two dead slots reused, one appended: 2 + (3 - 2).
    assert_eq!(w.particles.len(), 3);
}

#[test]
fn two_substeps_follow_the_documented_formulas() {
    let mut w = World::new(800, 800);
    w.params.spawn_count = 0;
    w.params.steps_per_frame = 2;
    let start = 400 * FP;
    w.particles.push(Particle { px: start, py: start, vx: 0, vy: 0, age: 0, alive: true });
    let (d1x, d1y) = w.noise.sample_direction(start, start, 40, 0);
    let vx1 = mul_div_fp(mul_div_fp(d1x, 8000), 9850);
    let vy1 = mul_div_fp(mul_div_fp(d1y, 8000), 9850);
    let (px1, py1) = (start + vx1, start + vy1);
    let (d2x, d2y) = w.noise.sample_direction(px1, py1, 40, 0);
    let vx2 = mul_div_fp(vx1 + mul_div_fp(d2x, 8000), 9850);
    let vy2 = mul_div_fp(vy1 + mul_div_fp(d2y, 8000), 9850);
    w.step_all();
    let p = &w.particles[0];
    assert_eq!((p.px, p.py), (px1 + vx2, py1 + vy2));
    assert_eq!((p.vx, p.vy), (vx2, vy2));
    assert_eq!(p.age, 2);
}

#[test]
fn age_saturates() {
    let mut w = World::new(16, 16);
    w.params.spawn_count = 0;
    w.params.steps_per_frame = 3;
    w.particles.push(Particle { px: 8 * FP, py: 8 * FP, vx: 0, vy: 0, age: u32::MAX - 1, alive: true });
    w.step_all();
    assert_eq!(w.particles[0].age, u32::MAX);
}
