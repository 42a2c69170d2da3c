//! The tunable runtime parameters and the discrete commands that nudge
//! them.
//!
//! Every numeric field is a fixed-point value in ten-thousandths. Each
//! command applies a bounded adjustment and clamps the result to the
//! parameter's documented range, so no field can ever leave its range
//! through any code path. Multiplicative nudges scale by 0.9 rounding
//! down and by 1.111 rounding up, so a nudge always moves until its clamp
//! takes over.

use vstd::prelude::*;
use crate::color::ColorMode;

verus! {

/// Lower bound of the noise sample scale (0.0005).
pub const SCALE_MIN: i64 = 5;

/// Upper bound of the noise sample scale (0.05).
pub const SCALE_MAX: i64 = 500;

/// Lower bound of the per-frame depth increment (0.0001).
pub const Z_STEP_MIN: i64 = 1;

/// Upper bound of the per-frame depth increment (0.05).
pub const Z_STEP_MAX: i64 = 500;

/// Lower bound of the flow force (0.05).
pub const FORCE_MIN: i64 = 500;

/// Upper bound of the flow force (5.0).
pub const FORCE_MAX: i64 = 50000;

/// Lower bound of the velocity friction multiplier (0.90).
pub const FRICTION_MIN: i64 = 9000;

/// Upper bound of the velocity friction multiplier (0.9995).
pub const FRICTION_MAX: i64 = 9995;

/// Additive friction nudge (0.002).
pub const FRICTION_STEP: i64 = 20;

/// Lower bound of the fade coefficient (0.0).
pub const FADE_MIN: i64 = 0;

/// Upper bound of the fade coefficient (0.2).
pub const FADE_MAX: i64 = 2000;

/// Additive fade nudge (0.01).
pub const FADE_STEP: i64 = 100;

/// Cap on the depth coordinate, keeping noise sample points inside the
/// hashing lattice; the depth saturates here instead of growing without
/// bound.
pub const Z_MAX: i64 = 0x1FFF_FFFF_FFFF;

/// The tunable parameter record read by every component each frame.
pub struct Params {
    /// Noise sample scale: world coordinates are multiplied by this before
    /// sampling.
    pub scale: i64,
    /// The depth coordinate: the third noise axis.
    pub z: i64,
    /// Per-frame depth increment.
    pub z_step: i64,
    /// Acceleration magnitude applied from the flow direction.
    pub force: i64,
    /// Per-substep velocity damping multiplier.
    pub friction: i64,
    /// Integration sub-steps per particle per frame.
    pub steps_per_frame: usize,
    /// Particles spawned per frame.
    pub spawn_count: usize,
    /// Temporal decay coefficient.
    pub fade: i64,
    /// The active color policy.
    pub color_mode: ColorMode,
    /// Whether the simulation is paused (fading still runs).
    pub paused: bool,
}

/// The discrete commands a frontend can issue against the parameter set.
#[derive(Clone, Copy, PartialEq, Eq, Structural, Debug)]
pub enum Command {
    /// Toggle the paused flag.
    TogglePause,
    /// Advance the color policy in its fixed cycle.
    CycleColorMode,
    /// Shrink the noise sample scale.
    ScaleDown,
    /// Grow the noise sample scale.
    ScaleUp,
    /// Shrink the per-frame depth increment.
    ZStepDown,
    /// Grow the per-frame depth increment.
    ZStepUp,
    /// Shrink the flow force.
    ForceDown,
    /// Grow the flow force.
    ForceUp,
    /// Lower the friction multiplier.
    FrictionDown,
    /// Raise the friction multiplier.
    FrictionUp,
    /// Strengthen the fade.
    FadeUp,
    /// Weaken the fade.
    FadeDown,
}

impl Params {
    /// Every numeric field sits inside its documented range.
    pub open spec fn wf(self) -> bool {
        &&& SCALE_MIN <= self.scale <= SCALE_MAX
        &&& 0 <= self.z <= Z_MAX
        &&& Z_STEP_MIN <= self.z_step <= Z_STEP_MAX
        &&& FORCE_MIN <= self.force <= FORCE_MAX
        &&& FRICTION_MIN <= self.friction <= FRICTION_MAX
        &&& FADE_MIN <= self.fade <= FADE_MAX
        &&& 1 <= self.steps_per_frame
    }

    /// The defaults the simulation starts from: scale 0.004, depth 0
    /// stepping by 0.004, force 0.8, friction 0.985, 300 sub-steps, fade
    /// 0.03, Direction coloring, running.
    pub open spec fn initial_spec(spawn_count: usize) -> Params {
        Params {
            scale: 40,
            z: 0,
            z_step: 40,
            force: 8000,
            friction: 9850,
            steps_per_frame: 300,
            spawn_count,
            fade: 300,
            color_mode: ColorMode::Direction,
            paused: false,
        }
    }

    /// Builds the default parameter record.
    pub fn initial(spawn_count: usize) -> (r: Params)
        ensures
            r == Params::initial_spec(spawn_count),
            r.wf(),
    {
        Params {
            scale: 40,
            z: 0,
            z_step: 40,
            force: 8000,
            friction: 9850,
            steps_per_frame: 300,
            spawn_count,
            fade: 300,
            color_mode: ColorMode::Direction,
            paused: false,
        }
    }
}

/// Clamped nudge downward: scaling by 0.9 rounded down, kept at or above
/// `lo`; from any in-range value it strictly shrinks until the clamp holds.
pub open spec fn nudge_down_spec(x: int, lo: int, hi: int) -> int {
    let scaled = x * 9 / 10;
    if scaled < lo {
        lo
    } else if scaled > hi {
        hi
    } else {
        scaled
    }
}

/// Clamped nudge upward: scaling by 1.111 rounded up, kept at or below
/// `hi`; from any in-range value it strictly grows until the clamp holds.
pub open spec fn nudge_up_spec(x: int, lo: int, hi: int) -> int {
    let scaled = (x * 1111 + 999) / 1000;
    if scaled < lo {
        lo
    } else if scaled > hi {
        hi
    } else {
        scaled
    }
}

fn nudge_down(x: i64, lo: i64, hi: i64) -> (r: i64)
    requires
        0 <= lo <= hi <= 0x10_0000,
        0 <= x <= 0x10_0000,
    ensures
        r == nudge_down_spec(x as int, lo as int, hi as int),
        lo <= r <= hi,
{
    crate::clamp_i64(x * 9 / 10, lo, hi)
}

fn nudge_up(x: i64, lo: i64, hi: i64) -> (r: i64)
    requires
        0 <= lo <= hi <= 0x10_0000,
        0 <= x <= 0x10_0000,
    ensures
        r == nudge_up_spec(x as int, lo as int, hi as int),
        lo <= r <= hi,
{
    crate::clamp_i64((x * 1111 + 999) / 1000, lo, hi)
}

impl Params {
    /// The parameter record after one command, every adjustment clamped to
    /// its range.
    pub open spec fn after_command_spec(self, cmd: Command) -> Params {
        match cmd {
            Command::TogglePause => Params { paused: !self.paused, ..self },
            Command::CycleColorMode => Params { color_mode: self.color_mode.next_spec(), ..self },
            Command::ScaleDown => Params {
                scale: nudge_down_spec(self.scale as int, SCALE_MIN as int, SCALE_MAX as int) as i64,
                ..self
            },
            Command::ScaleUp => Params {
                scale: nudge_up_spec(self.scale as int, SCALE_MIN as int, SCALE_MAX as int) as i64,
                ..self
            },
            Command::ZStepDown => Params {
                z_step: nudge_down_spec(self.z_step as int, Z_STEP_MIN as int, Z_STEP_MAX as int)
                    as i64,
                ..self
            },
            Command::ZStepUp => Params {
                z_step: nudge_up_spec(self.z_step as int, Z_STEP_MIN as int, Z_STEP_MAX as int)
                    as i64,
                ..self
            },
            Command::ForceDown => Params {
                force: nudge_down_spec(self.force as int, FORCE_MIN as int, FORCE_MAX as int) as i64,
                ..self
            },
            Command::ForceUp => Params {
                force: nudge_up_spec(self.force as int, FORCE_MIN as int, FORCE_MAX as int) as i64,
                ..self
            },
            Command::FrictionDown => Params {
                friction: if self.friction - FRICTION_STEP < FRICTION_MIN {
                    FRICTION_MIN
                } else {
                    (self.friction - FRICTION_STEP) as i64
                },
                ..self
            },
            Command::FrictionUp => Params {
                friction: if self.friction + FRICTION_STEP > FRICTION_MAX {
                    FRICTION_MAX
                } else {
                    (self.friction + FRICTION_STEP) as i64
                },
                ..self
            },
            Command::FadeUp => Params {
                fade: if self.fade + FADE_STEP > FADE_MAX {
                    FADE_MAX
                } else {
                    (self.fade + FADE_STEP) as i64
                },
                ..self
            },
            Command::FadeDown => Params {
                fade: if self.fade - FADE_STEP < FADE_MIN {
                    FADE_MIN
                } else {
                    (self.fade - FADE_STEP) as i64
                },
                ..self
            },
        }
    }

    /// Applies one command. No sequence of commands can push any parameter
    /// outside its documented range: well-formedness is preserved, and the
    /// new record is exactly `after_command_spec`.
    pub fn apply_command(&mut self, cmd: Command)
        requires
            old(self).wf(),
        ensures
            *final(self) == old(self).after_command_spec(cmd),
            final(self).wf(),
    {
        match cmd {
            Command::TogglePause => {
                self.paused = !self.paused;
            },
            Command::CycleColorMode => {
                self.color_mode = self.color_mode.next();
            },
            Command::ScaleDown => {
                self.scale = nudge_down(self.scale, SCALE_MIN, SCALE_MAX);
            },
            Command::ScaleUp => {
                self.scale = nudge_up(self.scale, SCALE_MIN, SCALE_MAX);
            },
            Command::ZStepDown => {
                self.z_step = nudge_down(self.z_step, Z_STEP_MIN, Z_STEP_MAX);
            },
            Command::ZStepUp => {
                self.z_step = nudge_up(self.z_step, Z_STEP_MIN, Z_STEP_MAX);
            },
            Command::ForceDown => {
                self.force = nudge_down(self.force, FORCE_MIN, FORCE_MAX);
            },
            Command::ForceUp => {
                self.force = nudge_up(self.force, FORCE_MIN, FORCE_MAX);
            },
            Command::FrictionDown => {
                self.friction = if self.friction - FRICTION_STEP < FRICTION_MIN {
                    FRICTION_MIN
                } else {
                    self.friction - FRICTION_STEP
                };
            },
            Command::FrictionUp => {
                self.friction = if self.friction + FRICTION_STEP > FRICTION_MAX {
                    FRICTION_MAX
                } else {
                    self.friction + FRICTION_STEP
                };
            },
            Command::FadeUp => {
                self.fade = if self.fade + FADE_STEP > FADE_MAX {
                    FADE_MAX
                } else {
                    self.fade + FADE_STEP
                };
            },
            Command::FadeDown => {
                self.fade = if self.fade - FADE_STEP < FADE_MIN {
                    FADE_MIN
                } else {
                    self.fade - FADE_STEP
                };
            },
        }
    }
}

/// Every command preserves every documented parameter range: from any
/// well-formed record, any command sequence stays well-formed.
pub proof fn lemma_commands_respect_ranges(p: Params, cmd: Command)
    requires
        p.wf(),
    ensures
        p.after_command_spec(cmd).wf(),
{
}

} // verus!
