//! The simulation world: the frame buffer, the particle population, the
//! noise field, the random source and the tunable parameters, driven one
//! rendered frame at a time in the fixed order fade, spawn, step, depth
//! advance.

use vstd::prelude::*;
use crate::FP_ONE;
use crate::fade::{apply_fade, fade_spec};
use crate::noisefield::NoiseField;
use crate::params::{Command, Params, Z_MAX};
use crate::particles::{inside_margin, run_substeps, run_substeps_frame, step_particle, Particle, ALIVE_POS_MAX, CANVAS_MAX};
use crate::rng::{rng_below, rng_from_seed, rng_next_u32};

verus! {

/// An all-black, fully opaque RGBA buffer of `n` bytes.
pub open spec fn black_frame(n: nat) -> Seq<u8> {
    Seq::new(
        n,
        |i: int|
            if i % 4 == 3 {
                255u8
            } else {
                0u8
            },
    )
}

/// The number of dead particles among the first `i` slots.
pub open spec fn dead_before(s: Seq<Particle>, i: int) -> int
    decreases i,
{
    if i <= 0 {
        0
    } else {
        dead_before(s, i - 1) + if !s[i - 1].alive {
            1int
        } else {
            0int
        }
    }
}

/// Dead slots only accumulate along the scan.
proof fn lemma_dead_before_mono(s: Seq<Particle>, i: int, j: int)
    requires
        0 <= i <= j,
    ensures
        dead_before(s, i) <= dead_before(s, j),
    decreases j,
{
    if i < j {
        lemma_dead_before_mono(s, i, j - 1);
    }
}

/// A just-spawned particle: alive at a uniformly drawn canvas position
/// with zero velocity and age.
pub open spec fn fresh_spawn(p: Particle, w: int, h: int) -> bool {
    &&& p.alive
    &&& p.age == 0
    &&& p.vx == 0
    &&& p.vy == 0
    &&& 0 <= p.px < w * FP_ONE
    &&& 0 <= p.py < h * FP_ONE
}

/// The shape of the population after one spawn pass over `parts` with
/// `count` requested spawns: live slots untouched, exactly the first
/// `min(count, dead)` dead slots revived as fresh spawns in population
/// order, the remaining dead slots untouched, and `count - dead` fresh
/// spawns appended if the dead slots did not suffice.
pub open spec fn spawn_shape(
    parts: Seq<Particle>,
    count: int,
    w: int,
    h: int,
    out: Seq<Particle>,
) -> bool {
    let dead = dead_before(parts, parts.len() as int);
    &&& out.len() == parts.len() + (if count > dead {
        count - dead
    } else {
        0int
    })
    &&& forall|i: int| 0 <= i < parts.len() && parts[i].alive ==> out[i] == parts[i]
    &&& forall|i: int|
        0 <= i < parts.len() && !parts[i].alive ==> if dead_before(parts, i) < count {
            fresh_spawn(out[i], w, h)
        } else {
            out[i] == parts[i]
        }
    &&& forall|i: int| parts.len() <= i < out.len() ==> fresh_spawn(out[i], w, h)
}

/// The buffer after stepping the whole population from slot `i` on, in
/// population order: each live particle's sub-step segments are drawn into
/// the frame left by the slots before it, with up to `k` sub-steps each.
pub open spec fn population_frame(
    parts: Seq<Particle>,
    nf: NoiseField,
    params: Params,
    w: int,
    h: int,
    k: nat,
    f: Seq<u8>,
    i: int,
) -> Seq<u8>
    decreases parts.len() - i,
{
    if i < 0 || i >= parts.len() {
        f
    } else {
        population_frame(
            parts,
            nf,
            params,
            w,
            h,
            k,
            run_substeps_frame(parts[i], nf, params, w, h, f, k),
            i + 1,
        )
    }
}

/// The whole simulation state.
pub struct World {
    /// Canvas width in pixels.
    pub width: u32,
    /// Canvas height in pixels.
    pub height: u32,
    /// The persistent RGBA frame buffer, row-major, origin top-left.
    pub frame: Vec<u8>,
    /// The seeded flow field.
    pub noise: NoiseField,
    /// The sequential random source for spawning and reseeding.
    pub rng: rand::rngs::StdRng,
    /// The tunable parameters.
    pub params: Params,
    /// The particle population; slots are reused, never removed mid-frame.
    pub particles: Vec<Particle>,
    /// Frames presented so far.
    pub frame_index: u64,
}

impl World {
    /// The structural invariant: canvas within machine limits, buffer of
    /// exactly canvas size, parameters in range, particles bounded.
    pub open spec fn wf(self) -> bool {
        &&& 1 <= self.width <= CANVAS_MAX
        &&& 1 <= self.height <= CANVAS_MAX
        &&& self.frame@.len() == self.width * self.height * 4
        &&& self.params.wf()
        &&& forall|i: int| 0 <= i < self.particles@.len() ==> self.particles@[i].bounded()
    }
}

fn black_vec(n: usize) -> (f: Vec<u8>)
    requires
        n % 4 == 0,
    ensures
        f@ == black_frame(n as nat),
        f@.len() == n,
{
    let mut f: Vec<u8> = Vec::new();
    while f.len() < n
        invariant
            n % 4 == 0,
            f@.len() % 4 == 0,
            f@.len() <= n,
            forall|i: int| 0 <= i < f@.len() ==> f@[i] == black_frame(n as nat)[i],
        decreases n - f@.len(),
    {
        f.push(0);
        f.push(0);
        f.push(0);
        f.push(255);
    }
    proof {
        assert(f@ =~= black_frame(n as nat));
    }
    f
}

impl World {
    /// A fresh world: black opaque canvas, noise seeded with 42, the
    /// random source with 123456789, default parameters spawning a quarter
    /// of the canvas height per frame, no particles yet.
    pub fn new(width: u32, height: u32) -> (w: World)
        requires
            1 <= width <= CANVAS_MAX,
            1 <= height <= CANVAS_MAX,
        ensures
            w.wf(),
            w.width == width,
            w.height == height,
            w.frame@ == black_frame((width * height * 4) as nat),
            w.noise.seed == 42,
            w.params == Params::initial_spec((height / 4) as usize),
            w.particles@.len() == 0,
            w.frame_index == 0,
    {
        proof {
            assert(width * height * 4 <= 0x4000_0000 && (width * height * 4) % 4 == 0)
                by (nonlinear_arith)
                requires 1 <= width <= 0x4000 && 1 <= height <= 0x4000;
        }
        let n: usize = (width as usize) * (height as usize) * 4;
        World {
            width,
            height,
            frame: black_vec(n),
            noise: NoiseField::new(42),
            rng: rng_from_seed(123456789),
            params: Params::initial((height / 4) as usize),
            particles: Vec::new(),
            frame_index: 0,
        }
    }

    /// Resizes the canvas: a zero or oversized dimension is rejected as a
    /// no-op, leaving the buffer intact; otherwise the buffer is
    /// reallocated to the new size and cleared to opaque black while
    /// particles and parameters are kept.
    pub fn resize(&mut self, width: u32, height: u32)
        requires
            old(self).wf(),
        ensures
            final(self).wf(),
            (width == 0 || height == 0 || width > CANVAS_MAX || height > CANVAS_MAX)
                ==> *final(self) == *old(self),
            (1 <= width <= CANVAS_MAX && 1 <= height <= CANVAS_MAX) ==> ({
                &&& final(self).width == width
                &&& final(self).height == height
                &&& final(self).frame@ == black_frame((width * height * 4) as nat)
                &&& final(self).particles == old(self).particles
                &&& final(self).params == old(self).params
                &&& final(self).noise == old(self).noise
                &&& final(self).rng == old(self).rng
                &&& final(self).frame_index == old(self).frame_index
            }),
    {
        if width == 0 || height == 0 || width > 0x4000 || height > 0x4000 {
            return ;
        }
        proof {
            assert(width * height * 4 <= 0x4000_0000 && (width * height * 4) % 4 == 0)
                by (nonlinear_arith)
                requires 1 <= width <= 0x4000 && 1 <= height <= 0x4000;
        }
        let n: usize = (width as usize) * (height as usize) * 4;
        self.width = width;
        self.height = height;
        self.frame = black_vec(n);
    }

    /// Reseeds the noise field from the random source, deterministically
    /// in the drawn seed; nothing else changes.
    pub fn reseed_noise(&mut self)
        requires
            old(self).wf(),
        ensures
            final(self).wf(),
            final(self).width == old(self).width,
            final(self).height == old(self).height,
            final(self).frame == old(self).frame,
            final(self).particles == old(self).particles,
            final(self).params == old(self).params,
            final(self).frame_index == old(self).frame_index,
    {
        let seed = rng_next_u32(&mut self.rng);
        self.noise = NoiseField::new(seed);
    }

    /// Applies one discrete command to the parameters: the exact clamped
    /// adjustment of `after_command_spec`, never leaving any range.
    pub fn apply_command(&mut self, cmd: Command)
        requires
            old(self).wf(),
        ensures
            final(self).wf(),
            final(self).params == old(self).params.after_command_spec(cmd),
            final(self).width == old(self).width,
            final(self).height == old(self).height,
            final(self).frame == old(self).frame,
            final(self).particles == old(self).particles,
            final(self).noise == old(self).noise,
            final(self).rng == old(self).rng,
            final(self).frame_index == old(self).frame_index,
    {
        self.params.apply_command(cmd);
    }

    /// A copy of the frame with every alpha byte forced fully opaque and
    /// the color bytes untouched: the snapshot an exporter encodes.
    pub fn snapshot_rgba(&self) -> (out: Vec<u8>)
        requires
            self.wf(),
        ensures
            out@.len() == self.frame@.len(),
            forall|i: int|
                0 <= i < out@.len() ==> out@[i] == if i % 4 == 3 {
                    255u8
                } else {
                    self.frame@[i]
                },
    {
        proof {
            let wv = self.width as int;
            let hv = self.height as int;
            assert((wv * hv * 4) % 4 == 0) by (nonlinear_arith);
        }
        let mut out: Vec<u8> = Vec::new();
        let mut i: usize = 0;
        while i < self.frame.len()
            invariant
                self.frame@.len() % 4 == 0,
                i % 4 == 0,
                i <= self.frame@.len(),
                out@.len() == i,
                forall|j: int|
                    0 <= j < i ==> out@[j] == if j % 4 == 3 {
                        255u8
                    } else {
                        self.frame@[j]
                    },
            decreases self.frame@.len() - i,
        {
            out.push(self.frame[i]);
            out.push(self.frame[i + 1]);
            out.push(self.frame[i + 2]);
            out.push(255);
            i = i + 4;
        }
        out
    }

    fn spawn_position(&mut self) -> (pos: (i64, i64))
        requires
            1 <= old(self).width <= CANVAS_MAX,
            1 <= old(self).height <= CANVAS_MAX,
        ensures
            0 <= pos.0 < old(self).width * FP_ONE,
            0 <= pos.1 < old(self).height * FP_ONE,
            final(self).width == old(self).width,
            final(self).height == old(self).height,
            final(self).frame == old(self).frame,
            final(self).particles == old(self).particles,
            final(self).params == old(self).params,
            final(self).noise == old(self).noise,
            final(self).frame_index == old(self).frame_index,
    {
        proof {
            let wv = old(self).width as int;
            let hv = old(self).height as int;
            assert(1 * 10000 <= wv * 10000 <= 0x4000 * 10000 && 1 * 10000 <= hv * 10000 <= 0x4000
                * 10000) by (nonlinear_arith)
                requires
                    1 <= wv <= 0x4000,
                    1 <= hv <= 0x4000;
        }
        let bx: u64 = (self.width as u64) * 10000;
        let by: u64 = (self.height as u64) * 10000;
        let px = rng_below(&mut self.rng, bx) as i64;
        let py = rng_below(&mut self.rng, by) as i64;
        (px, py)
    }

    /// Spawns this frame's particles: dead slots are reused in population
    /// order first — exactly the first `min(count, dead)` of them — and
    /// only the remainder appends new particles. Each spawn is alive at a
    /// random canvas position with zero velocity and age; live particles
    /// are untouched.
    pub fn spawn_particles(&mut self)
        requires
            old(self).wf(),
        ensures
            final(self).wf(),
            final(self).width == old(self).width,
            final(self).height == old(self).height,
            final(self).frame == old(self).frame,
            final(self).params == old(self).params,
            final(self).noise == old(self).noise,
            final(self).frame_index == old(self).frame_index,
            old(self).params.spawn_count == 0 ==> final(self).rng == old(self).rng,
            spawn_shape(
                old(self).particles@,
                old(self).params.spawn_count as int,
                old(self).width as int,
                old(self).height as int,
                final(self).particles@,
            ),
    {
        let ghost parts = self.particles@;
        let count = self.params.spawn_count;
        if count == 0 {
            proof {
                assert forall|j: int| 0 <= j implies dead_before(parts, j) >= 0 by {
                    lemma_dead_before_mono(parts, 0, j);
                }
            }
            return ;
        }
        let len = self.particles.len();
        let mut spawned: usize = 0;
        let mut i: usize = 0;
        while spawned < count && i < len
            invariant
                len == parts.len(),
                self.particles@.len() == len,
                i <= len,
                spawned <= count,
                count == self.params.spawn_count,
                spawned == if dead_before(parts, i as int) < count {
                    dead_before(parts, i as int)
                } else {
                    count as int
                },
                forall|j: int| i <= j < len ==> self.particles@[j] == parts[j],
                forall|j: int|
                    0 <= j < i && parts[j].alive ==> self.particles@[j] == parts[j],
                forall|j: int|
                    0 <= j < i && !parts[j].alive ==> if dead_before(parts, j) < count {
                        fresh_spawn(
                            self.particles@[j],
                            old(self).width as int,
                            old(self).height as int,
                        )
                    } else {
                        self.particles@[j] == parts[j]
                    },
                forall|j: int| 0 <= j < len ==> self.particles@[j].bounded(),
                1 <= self.width <= CANVAS_MAX,
                1 <= self.height <= CANVAS_MAX,
                self.width == old(self).width,
                self.height == old(self).height,
                self.frame == old(self).frame,
                self.params == old(self).params,
                self.noise == old(self).noise,
                self.frame_index == old(self).frame_index,
            decreases len - i,
        {
            proof {
                assert(dead_before(parts, i + 1) == dead_before(parts, i as int) + if !parts[
                    i as int
                ].alive {
                    1int
                } else {
                    0int
                });
            }
            if !self.particles[i].alive {
                let (px, py) = self.spawn_position();
                proof {
                    assert((self.width as int) * FP_ONE <= ALIVE_POS_MAX) by (nonlinear_arith)
                        requires 1 <= self.width <= 0x4000;
                    assert((self.height as int) * FP_ONE <= ALIVE_POS_MAX) by (nonlinear_arith)
                        requires 1 <= self.height <= 0x4000;
                }
                let fresh = Particle::new(px, py);
                self.particles[i] = fresh;
                spawned = spawned + 1;
            }
            i = i + 1;
        }
        proof {
            lemma_dead_before_mono(parts, i as int, parts.len() as int);
            assert forall|j: int| i <= j < parts.len() implies dead_before(parts, j)
                >= dead_before(parts, i as int) by {
                lemma_dead_before_mono(parts, i as int, j);
            }
            assert forall|j: int| 0 <= j implies dead_before(parts, j) >= 0 by {
                lemma_dead_before_mono(parts, 0, j);
            }
        }
        let ghost base = spawned as int;
        while spawned < count
            invariant
                len == parts.len(),
                spawned <= count,
                count == self.params.spawn_count,
                base == if dead_before(parts, len as int) < count {
                    dead_before(parts, len as int)
                } else {
                    count as int
                },
                base <= spawned,
                self.particles@.len() == len + (spawned - base),
                forall|j: int|
                    0 <= j < len && parts[j].alive ==> self.particles@[j] == parts[j],
                forall|j: int|
                    0 <= j < len && !parts[j].alive ==> if dead_before(parts, j) < count {
                        fresh_spawn(
                            self.particles@[j],
                            old(self).width as int,
                            old(self).height as int,
                        )
                    } else {
                        self.particles@[j] == parts[j]
                    },
                forall|j: int|
                    len <= j < self.particles@.len() ==> fresh_spawn(
                        self.particles@[j],
                        old(self).width as int,
                        old(self).height as int,
                    ),
                forall|j: int| 0 <= j < self.particles@.len() ==> self.particles@[j].bounded(),
                1 <= self.width <= CANVAS_MAX,
                1 <= self.height <= CANVAS_MAX,
                self.width == old(self).width,
                self.height == old(self).height,
                self.frame == old(self).frame,
                self.params == old(self).params,
                self.noise == old(self).noise,
                self.frame_index == old(self).frame_index,
            decreases count - spawned,
        {
            let (px, py) = self.spawn_position();
            proof {
                assert((self.width as int) * FP_ONE <= ALIVE_POS_MAX) by (nonlinear_arith)
                    requires 1 <= self.width <= 0x4000;
                assert((self.height as int) * FP_ONE <= ALIVE_POS_MAX) by (nonlinear_arith)
                    requires 1 <= self.height <= 0x4000;
            }
            let fresh = Particle::new(px, py);
            self.particles.push(fresh);
            spawned = spawned + 1;
        }
    }

    /// Runs the frame's integration: every live particle takes up to
    /// `steps_per_frame` sub-steps, each drawing its traveled segment, and
    /// stops early the moment it leaves the margin region, at which point
    /// it is marked dead. Dead slots are untouched and draw nothing, each
    /// live particle follows exactly the `run_substeps` trajectory of the
    /// flow field, the buffer ends exactly as `population_frame` describes
    /// — every live particle's segments and nothing else — and every
    /// particle still alive afterwards is inside the margin region.
    #[verifier::rlimit(100)]
    pub fn step_all(&mut self)
        requires
            old(self).wf(),
        ensures
            final(self).wf(),
            final(self).width == old(self).width,
            final(self).height == old(self).height,
            final(self).params == old(self).params,
            final(self).noise == old(self).noise,
            final(self).rng == old(self).rng,
            final(self).frame_index == old(self).frame_index,
            final(self).frame@.len() == old(self).frame@.len(),
            final(self).frame@ == population_frame(
                old(self).particles@,
                old(self).noise,
                old(self).params,
                old(self).width as int,
                old(self).height as int,
                old(self).params.steps_per_frame as nat,
                old(self).frame@,
                0,
            ),
            final(self).particles@.len() == old(self).particles@.len(),
            forall|i: int|
                0 <= i < old(self).particles@.len() && !old(self).particles@[i].alive ==> final(self).particles@[i] == old(self).particles@[i],
            forall|i: int|
                0 <= i < old(self).particles@.len() && old(self).particles@[i].alive ==> final(self).particles@[i] == run_substeps(
                    old(self).particles@[i],
                    old(self).noise,
                    old(self).params,
                    old(self).width as int,
                    old(self).height as int,
                    old(self).params.steps_per_frame as nat,
                ),
            forall|i: int|
                0 <= i < final(self).particles@.len() && final(self).particles@[i].alive ==> old(self).particles@[i].alive && inside_margin(
                    final(self).particles@[i].px as int,
                    final(self).particles@[i].py as int,
                    old(self).width as int,
                    old(self).height as int,
                ),
    {
        let w = self.width as i64;
        let h = self.height as i64;
        let steps = self.params.steps_per_frame;
        let len = self.particles.len();
        let mut idx: usize = 0;
        while idx < len
            invariant
                len == self.particles@.len(),
                len == old(self).particles@.len(),
                idx <= len,
                w == old(self).width as i64,
                h == old(self).height as i64,
                steps == self.params.steps_per_frame,
                1 <= w <= CANVAS_MAX,
                1 <= h <= CANVAS_MAX,
                self.width == old(self).width,
                self.height == old(self).height,
                self.params == old(self).params,
                self.params.wf(),
                self.noise == old(self).noise,
                self.rng == old(self).rng,
                self.frame_index == old(self).frame_index,
                self.frame@.len() == old(self).frame@.len(),
                self.frame@.len() == w * h * 4,
                population_frame(
                    old(self).particles@,
                    old(self).noise,
                    old(self).params,
                    w as int,
                    h as int,
                    steps as nat,
                    self.frame@,
                    idx as int,
                ) == population_frame(
                    old(self).particles@,
                    old(self).noise,
                    old(self).params,
                    w as int,
                    h as int,
                    steps as nat,
                    old(self).frame@,
                    0,
                ),
                forall|j: int| idx <= j < len ==> self.particles@[j] == old(self).particles@[j],
                forall|j: int|
                    0 <= j < idx && !old(self).particles@[j].alive ==> self.particles@[j] == old(self).particles@[j],
                forall|j: int|
                    0 <= j < idx && old(self).particles@[j].alive ==> self.particles@[j]
                        == run_substeps(
                        old(self).particles@[j],
                        old(self).noise,
                        old(self).params,
                        w as int,
                        h as int,
                        steps as nat,
                    ),
                forall|j: int|
                    0 <= j < idx && self.particles@[j].alive ==> old(self).particles@[j].alive
                        && inside_margin(
                        self.particles@[j].px as int,
                        self.particles@[j].py as int,
                        w as int,
                        h as int,
                    ),
                forall|j: int| 0 <= j < len ==> self.particles@[j].bounded(),
            decreases len - idx,
        {
            let mut part = self.particles[idx];
            let ghost orig = part;
            let ghost f0 = self.frame@;
            if part.alive {
                let mut s: usize = 0;
                while s < steps && part.alive
                    invariant
                        s <= steps,
                        part.bounded(),
                        run_substeps(
                            orig,
                            old(self).noise,
                            old(self).params,
                            w as int,
                            h as int,
                            steps as nat,
                        ) == run_substeps(
                            part,
                            old(self).noise,
                            old(self).params,
                            w as int,
                            h as int,
                            (steps - s) as nat,
                        ),
                        run_substeps_frame(
                            orig,
                            old(self).noise,
                            old(self).params,
                            w as int,
                            h as int,
                            f0,
                            steps as nat,
                        ) == run_substeps_frame(
                            part,
                            old(self).noise,
                            old(self).params,
                            w as int,
                            h as int,
                            self.frame@,
                            (steps - s) as nat,
                        ),
                        orig == old(self).particles@[idx as int],
                        part.alive && s > 0 ==> inside_margin(
                            part.px as int,
                            part.py as int,
                            w as int,
                            h as int,
                        ),
                        1 <= w <= CANVAS_MAX,
                        1 <= h <= CANVAS_MAX,
                        self.params.wf(),
                        self.frame@.len() == w * h * 4,
                        self.width == old(self).width,
                        self.height == old(self).height,
                        self.params == old(self).params,
                        self.noise == old(self).noise,
                        self.rng == old(self).rng,
                        self.frame_index == old(self).frame_index,
                        len == self.particles@.len(),
                        forall|j: int|
                            idx <= j < len ==> self.particles@[j] == old(self).particles@[j],
                        forall|j: int|
                            0 <= j < idx && !old(self).particles@[j].alive ==> self.particles@[j]
                                == old(self).particles@[j],
                        forall|j: int|
                            0 <= j < idx && old(self).particles@[j].alive ==> self.particles@[j]
                                == run_substeps(
                                old(self).particles@[j],
                                old(self).noise,
                                old(self).params,
                                w as int,
                                h as int,
                                steps as nat,
                            ),
                        forall|j: int|
                            0 <= j < idx && self.particles@[j].alive ==> old(self).particles@[j].alive && inside_margin(
                                self.particles@[j].px as int,
                                self.particles@[j].py as int,
                                w as int,
                                h as int,
                            ),
                        forall|j: int| 0 <= j < len ==> self.particles@[j].bounded(),
                    decreases steps - s,
                {
                    let ghost pre = part;
                    let ghost fpre = self.frame@;
                    step_particle(&mut part, &self.noise, &self.params, w, h, &mut self.frame);
                    proof {
                        assert(run_substeps(
                            pre,
                            old(self).noise,
                            old(self).params,
                            w as int,
                            h as int,
                            (steps - s) as nat,
                        ) == run_substeps(
                            part,
                            old(self).noise,
                            old(self).params,
                            w as int,
                            h as int,
                            (steps - s - 1) as nat,
                        ));
                        assert(run_substeps_frame(
                            pre,
                            old(self).noise,
                            old(self).params,
                            w as int,
                            h as int,
                            fpre,
                            (steps - s) as nat,
                        ) == run_substeps_frame(
                            part,
                            old(self).noise,
                            old(self).params,
                            w as int,
                            h as int,
                            self.frame@,
                            (steps - s - 1) as nat,
                        ));
                    }
                    s = s + 1;
                }
                proof {
                    assert(run_substeps(
                        part,
                        old(self).noise,
                        old(self).params,
                        w as int,
                        h as int,
                        (steps - s) as nat,
                    ) == part);
                    assert(run_substeps(
                        orig,
                        old(self).noise,
                        old(self).params,
                        w as int,
                        h as int,
                        steps as nat,
                    ) == part);
                    assert(run_substeps_frame(
                        part,
                        old(self).noise,
                        old(self).params,
                        w as int,
                        h as int,
                        self.frame@,
                        (steps - s) as nat,
                    ) == self.frame@);
                }
                self.particles[idx] = part;
            }
            proof {
                assert(run_substeps_frame(
                    orig,
                    old(self).noise,
                    old(self).params,
                    w as int,
                    h as int,
                    f0,
                    steps as nat,
                ) == self.frame@);
                assert(population_frame(
                    old(self).particles@,
                    old(self).noise,
                    old(self).params,
                    w as int,
                    h as int,
                    steps as nat,
                    f0,
                    idx as int,
                ) == population_frame(
                    old(self).particles@,
                    old(self).noise,
                    old(self).params,
                    w as int,
                    h as int,
                    steps as nat,
                    self.frame@,
                    idx + 1,
                ));
            }
            idx = idx + 1;
        }
    }

    /// Advances the depth coordinate by its per-frame increment,
    /// saturating at the lattice cap.
    fn advance_z(&mut self)
        requires
            old(self).wf(),
        ensures
            final(self).wf(),
            *final(self) == (World {
                params: Params {
                    z: if old(self).params.z + old(self).params.z_step <= Z_MAX {
                        (old(self).params.z + old(self).params.z_step) as i64
                    } else {
                        Z_MAX
                    },
                    ..old(self).params
                },
                ..*old(self)
            }),
    {
        if self.params.z <= Z_MAX - self.params.z_step {
            self.params.z = self.params.z + self.params.z_step;
        } else {
            self.params.z = Z_MAX;
        }
    }

    /// One simulation tick: the buffer fades toward black first; then,
    /// unless paused, particles are spawned into dead slots or appended,
    /// every live particle is integrated and drawn, and the depth
    /// coordinate advances. A paused world only fades.
    pub fn update(&mut self)
        requires
            old(self).wf(),
        ensures
            final(self).wf(),
            final(self).width == old(self).width,
            final(self).height == old(self).height,
            final(self).noise == old(self).noise,
            final(self).frame_index == old(self).frame_index,
            old(self).params.paused ==> ({
                &&& final(self).frame@ == fade_spec(old(self).frame@, old(self).params.fade as int)
                &&& final(self).particles == old(self).particles
                &&& final(self).params == old(self).params
                &&& final(self).rng == old(self).rng
            }),
            !old(self).params.paused ==> final(self).params == (Params {
                z: if old(self).params.z + old(self).params.z_step <= Z_MAX {
                    (old(self).params.z + old(self).params.z_step) as i64
                } else {
                    Z_MAX
                },
                ..old(self).params
            }),
            !old(self).params.paused ==> ({
                let parts = old(self).particles@;
                let count = old(self).params.spawn_count as int;
                let dead = dead_before(parts, parts.len() as int);
                final(self).particles@.len() == parts.len() + (if count > dead {
                    count - dead
                } else {
                    0int
                })
            }),
            // A running frame follows the fixed order: the buffer fades
            // first, the spawn pass shapes some population `mid`, and the
            // final buffer and particles are exactly that population's
            // stepped segments and trajectories.
            !old(self).params.paused ==> exists|mid: Seq<Particle>|
                {
                    &&& #[trigger] spawn_shape(
                        old(self).particles@,
                        old(self).params.spawn_count as int,
                        old(self).width as int,
                        old(self).height as int,
                        mid,
                    )
                    &&& final(self).frame@ == population_frame(
                        mid,
                        old(self).noise,
                        old(self).params,
                        old(self).width as int,
                        old(self).height as int,
                        old(self).params.steps_per_frame as nat,
                        fade_spec(old(self).frame@, old(self).params.fade as int),
                        0,
                    )
                    &&& final(self).particles@.len() == mid.len()
                    &&& forall|i: int|
                        0 <= i < mid.len() && !mid[i].alive ==> final(self).particles@[i]
                            == mid[i]
                    &&& forall|i: int|
                        0 <= i < mid.len() && mid[i].alive ==> final(self).particles@[i]
                            == run_substeps(
                            mid[i],
                            old(self).noise,
                            old(self).params,
                            old(self).width as int,
                            old(self).height as int,
                            old(self).params.steps_per_frame as nat,
                        )
                },
            !old(self).params.paused ==> forall|i: int|
                0 <= i < final(self).particles@.len() && final(self).particles@[i].alive
                    ==> inside_margin(
                    final(self).particles@[i].px as int,
                    final(self).particles@[i].py as int,
                    old(self).width as int,
                    old(self).height as int,
                ),
    {
        proof {
            let wv = old(self).width as int;
            let hv = old(self).height as int;
            assert((wv * hv * 4) % 4 == 0) by (nonlinear_arith);
        }
        apply_fade(&mut self.frame, self.params.fade);
        if !self.params.paused {
            self.spawn_particles();
            let ghost mid = self.particles@;
            self.step_all();
            self.advance_z();
            proof {
                assert(spawn_shape(
                    old(self).particles@,
                    old(self).params.spawn_count as int,
                    old(self).width as int,
                    old(self).height as int,
                    mid,
                ));
            }
        }
    }

    /// Records one successfully presented frame.
    pub fn frame_presented(&mut self)
        ensures
            *final(self) == (World {
                frame_index: if old(self).frame_index + 1 <= u64::MAX {
                    (old(self).frame_index + 1) as u64
                } else {
                    u64::MAX
                },
                ..*old(self)
            }),
    {
        if self.frame_index < u64::MAX {
            self.frame_index = self.frame_index + 1;
        }
    }
}

} // verus!
