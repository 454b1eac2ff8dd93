//! The player-controlled ball entity and the session configuration.

use vstd::prelude::*;
use crate::fx::{SCALE, in_range, clip};
use crate::vec2::{Vec2, vec_in_range};

verus! {

/// Per-tick player input.
#[derive(Clone, Copy, PartialEq, Eq, Structural, Debug)]
pub struct Input {
    /// Requested roll direction, a fixed-point value in `[-1, 1]`.
    pub roll_direction: i64,
    /// The propulsion control is held.
    pub force_fart: bool,
}

impl Input {
    pub open spec fn wf(self) -> bool {
        in_range(self.roll_direction as int)
    }

    pub fn idle() -> (r: Input)
        ensures
            r == (Input { roll_direction: 0i64, force_fart: false }),
    {
        Input { roll_direction: 0, force_fart: false }
    }
}

/// Kinematic state of the ball.
#[derive(Clone, Copy, PartialEq, Eq, Structural, Debug)]
pub struct Ball {
    pub pos: Vec2,
    pub vel: Vec2,
    /// Rotation angle in fixed-point radians.
    pub rot: i64,
    /// Angular velocity.
    pub w: i64,
    pub radius: i64,
}

impl Ball {
    pub open spec fn wf(self) -> bool {
        &&& vec_in_range(self.pos)
        &&& vec_in_range(self.vel)
        &&& in_range(self.rot as int)
        &&& in_range(self.w as int)
        &&& 0 < self.radius && in_range(self.radius as int)
    }
}

/// Propulsion gauge.
#[derive(Clone, Copy, PartialEq, Eq, Structural, Debug)]
pub struct FartState {
    /// Accumulated pressure; never negative.
    pub fart_pressure: i64,
    /// Continuous-thrust mode is active.
    pub long_farting: bool,
}

impl FartState {
    pub open spec fn wf(self) -> bool {
        0 <= self.fart_pressure && in_range(self.fart_pressure as int)
    }

    pub fn reset() -> (r: FartState)
        ensures
            r == (FartState { fart_pressure: 0i64, long_farting: false }),
            r.wf(),
    {
        FartState { fart_pressure: 0, long_farting: false }
    }
}

/// Countdown while captured by a cannon.
#[derive(Clone, Copy, PartialEq, Eq, Structural, Debug)]
pub struct CannonTimer {
    pub cannon_index: usize,
    pub time: i64,
}

/// Progress bookkeeping; only `finished` feeds back into the physics.
#[derive(Clone, Copy, PartialEq, Eq, Structural, Debug)]
pub struct GuyProgress {
    pub finished: bool,
    pub fraction: i64,
    pub best_fraction: i64,
    pub best_time: Option<i64>,
}

/// Cosmetic identity; preserved wholesale across timeline restores.
#[derive(Clone, Copy, PartialEq, Eq, Structural, Debug)]
pub struct Look {
    pub name_id: i64,
    pub color_id: i64,
}

/// Cosmetic animation timers.
#[derive(Clone, Copy, PartialEq, Eq, Structural, Debug)]
pub struct GuyAnimation {
    pub growl_progress: Option<i64>,
}

#[derive(Clone, Copy, PartialEq, Eq, Structural, Debug)]
pub struct Guy {
    /// Unique per connection; `-1` is the customization preview.
    pub id: i64,
    pub ball: Ball,
    pub fart_state: FartState,
    /// Remaining buoyancy time, if any.
    pub bubble_timer: Option<i64>,
    pub cannon_timer: Option<CannonTimer>,
    /// Spin-accumulated snow coating, shed on impact.
    pub snow_layer: i64,
    /// Residual post-collision force applied over subsequent ticks.
    pub stick_force: Vec2,
    pub touched_a_unicorn: bool,
    pub progress: GuyProgress,
    pub input: Input,
    pub look: Look,
    pub animation: GuyAnimation,
}

impl Guy {
    pub open spec fn wf(self) -> bool {
        &&& self.ball.wf()
        &&& self.fart_state.wf()
        &&& match self.bubble_timer {
            Option::Some(t) => in_range(t as int),
            Option::None => true,
        }
        &&& match self.cannon_timer {
            Option::Some(ct) => in_range(ct.time as int),
            Option::None => true,
        }
        &&& 0 <= self.snow_layer && in_range(self.snow_layer as int)
        &&& vec_in_range(self.stick_force)
        &&& self.input.wf()
        &&& match self.animation.growl_progress {
            Option::Some(g) => in_range(g as int),
            Option::None => true,
        }
    }

    /// Runtime well-formedness test, for snapshots that arrive from outside.
    pub fn check_wf(&self) -> (r: bool)
        ensures
            r == self.wf(),
    {
        let ball_ok = crate::fx::in_range_chk(self.ball.pos.x) && crate::fx::in_range_chk(
            self.ball.pos.y,
        ) && crate::fx::in_range_chk(self.ball.vel.x) && crate::fx::in_range_chk(self.ball.vel.y)
            && crate::fx::in_range_chk(self.ball.rot) && crate::fx::in_range_chk(self.ball.w)
            && 0 < self.ball.radius && crate::fx::in_range_chk(self.ball.radius);
        let fart_ok = 0 <= self.fart_state.fart_pressure && crate::fx::in_range_chk(
            self.fart_state.fart_pressure,
        );
        let bubble_ok = match self.bubble_timer {
            Option::Some(t) => crate::fx::in_range_chk(t),
            Option::None => true,
        };
        let cannon_ok = match self.cannon_timer {
            Option::Some(ct) => crate::fx::in_range_chk(ct.time),
            Option::None => true,
        };
        let rest_ok = 0 <= self.snow_layer && crate::fx::in_range_chk(self.snow_layer)
            && crate::fx::in_range_chk(self.stick_force.x) && crate::fx::in_range_chk(
            self.stick_force.y,
        ) && crate::fx::in_range_chk(self.input.roll_direction) && (match self
            .animation
            .growl_progress {
            Option::Some(g) => crate::fx::in_range_chk(g),
            Option::None => true,
        });
        ball_ok && fart_ok && bubble_ok && cannon_ok && rest_ok
    }

    /// Effective radius (the coating is cosmetic and does not grow the ball).
    pub fn radius(&self) -> (r: i64)
        requires
            self.wf(),
        ensures
            r == self.ball.radius,
            0 < r,
            in_range(r as int),
    {
        self.ball.radius
    }

    /// Effective mass: the configured mass plus the snow coating.
    pub fn mass(&self, config: &Config) -> (r: i64)
        requires
            self.wf(),
            config.wf(),
        ensures
            r as int == mass_spec(*self, *config),
            0 < r,
            in_range(r as int),
    {
        crate::fx::fx_add(config.guy_mass, self.snow_layer)
    }

    /// A fresh avatar at the spawn point.
    pub fn spawn(id: i64, pos: Vec2, config: &Config) -> (r: Guy)
        requires
            vec_in_range(pos),
            config.wf(),
        ensures
            r == spawn_spec(id, pos, *config),
            r.wf(),
    {
        Guy {
            id,
            ball: Ball { pos, vel: Vec2 { x: 0, y: 0 }, rot: 0, w: 0, radius: config.guy_radius },
            fart_state: FartState { fart_pressure: 0, long_farting: false },
            bubble_timer: Option::None,
            cannon_timer: Option::None,
            snow_layer: 0,
            stick_force: Vec2 { x: 0, y: 0 },
            touched_a_unicorn: false,
            progress: GuyProgress {
                finished: false,
                fraction: 0,
                best_fraction: 0,
                best_time: Option::None,
            },
            input: Input { roll_direction: 0, force_fart: false },
            look: Look { name_id: 0, color_id: 0 },
            animation: GuyAnimation { growl_progress: Option::None },
        }
    }
}

pub open spec fn mass_spec(g: Guy, c: Config) -> int {
    clip(c.guy_mass + g.snow_layer)
}

pub open spec fn spawn_spec(id: i64, pos: Vec2, c: Config) -> Guy {
    Guy {
        id,
        ball: Ball {
            pos,
            vel: Vec2 { x: 0i64, y: 0i64 },
            rot: 0i64,
            w: 0i64,
            radius: c.guy_radius,
        },
        fart_state: FartState { fart_pressure: 0i64, long_farting: false },
        bubble_timer: Option::None,
        cannon_timer: Option::None,
        snow_layer: 0i64,
        stick_force: Vec2 { x: 0i64, y: 0i64 },
        touched_a_unicorn: false,
        progress: GuyProgress {
            finished: false,
            fraction: 0i64,
            best_fraction: 0i64,
            best_time: Option::None,
        },
        input: Input { roll_direction: 0i64, force_fart: false },
        look: Look { name_id: 0i64, color_id: 0i64 },
        animation: GuyAnimation { growl_progress: Option::None },
    }
}

/// Cannon parameters shared by every cannon of a level.
#[derive(Clone, Copy, PartialEq, Eq, Structural, Debug)]
pub struct CannonConfig {
    /// Capture radius.
    pub activate_distance: i64,
    /// Countdown between capture and launch.
    pub shoot_time: i64,
    /// Launch speed.
    pub strength: i64,
}

impl CannonConfig {
    pub open spec fn wf(self) -> bool {
        &&& 0 < self.activate_distance && in_range(self.activate_distance as int)
        &&& 0 <= self.shoot_time && in_range(self.shoot_time as int)
        &&& 0 <= self.strength && in_range(self.strength as int)
    }
}

/// Session-constant tuning parameters.
#[derive(Clone, Copy, PartialEq, Eq, Structural, Debug)]
pub struct Config {
    pub gravity: i64,
    pub angular_acceleration: i64,
    pub max_angular_speed: i64,
    pub guy_radius: i64,
    pub guy_mass: i64,
    /// Penetrations at or beyond this depth are ignored (teleport artefacts).
    pub max_penetration: i64,
    /// Pressure spent by one discharge; also the release threshold.
    pub fart_pressure_released: i64,
    /// Reaching this pressure forces a discharge.
    pub max_fart_pressure: i64,
    /// Pressure drained per second while cutting a long fart short.
    pub fart_continuation_pressure_speed: i64,
    /// Charge-rate multiplier while the control is held.
    pub force_fart_pressure_multiplier: i64,
    /// Continuous thrust while long-farting; zero disables the mode.
    pub fart_continued_force: i64,
    /// Impulse of one discharge.
    pub fart_strength: i64,
    pub growl_time: i64,
    pub bubble_time: i64,
    pub bubble_target_speed: i64,
    pub bubble_acceleration: i64,
    pub stick_force_fadeout_speed: i64,
    pub snow_falloff_impulse_min: i64,
    pub snow_falloff_impulse_max: i64,
    pub max_snow_layer: i64,
    pub cannon: CannonConfig,
    /// Trigger radius of portals.
    pub portal_size: i64,
}

impl Config {
    pub open spec fn wf(self) -> bool {
        &&& 0 <= self.gravity && in_range(self.gravity as int)
        &&& 0 <= self.angular_acceleration && in_range(self.angular_acceleration as int)
        &&& 0 <= self.max_angular_speed && in_range(self.max_angular_speed as int)
        &&& 0 < self.guy_radius && in_range(self.guy_radius as int)
        &&& 0 < self.guy_mass && in_range(self.guy_mass as int)
        &&& 0 <= self.max_penetration && in_range(self.max_penetration as int)
        &&& 0 <= self.fart_pressure_released && in_range(self.fart_pressure_released as int)
        &&& self.fart_pressure_released <= self.max_fart_pressure && in_range(
            self.max_fart_pressure as int,
        )
        &&& 0 <= self.fart_continuation_pressure_speed && in_range(
            self.fart_continuation_pressure_speed as int,
        )
        &&& 0 <= self.force_fart_pressure_multiplier && in_range(
            self.force_fart_pressure_multiplier as int,
        )
        &&& 0 <= self.fart_continued_force && in_range(self.fart_continued_force as int)
        &&& 0 <= self.fart_strength && in_range(self.fart_strength as int)
        &&& 0 < self.growl_time && in_range(self.growl_time as int)
        &&& 0 <= self.bubble_time && in_range(self.bubble_time as int)
        &&& 0 <= self.bubble_target_speed && in_range(self.bubble_target_speed as int)
        &&& 0 <= self.bubble_acceleration && in_range(self.bubble_acceleration as int)
        &&& 0 <= self.stick_force_fadeout_speed && in_range(
            self.stick_force_fadeout_speed as int,
        )
        &&& 0 <= self.snow_falloff_impulse_min && in_range(self.snow_falloff_impulse_min as int)
        &&& self.snow_falloff_impulse_min <= self.snow_falloff_impulse_max && in_range(
            self.snow_falloff_impulse_max as int,
        )
        &&& 0 <= self.max_snow_layer && in_range(self.max_snow_layer as int)
        &&& self.cannon.wf()
        &&& 0 < self.portal_size && in_range(self.portal_size as int)
    }
}

/// Discrete side effects of one tick, consumed by presentation layers.
#[derive(Clone, Copy, PartialEq, Eq, Structural, Debug)]
pub enum Event {
    /// The finish point was reached for the first time.
    Finished,
    /// One-shot unicorn contact.
    UnicornTouched,
    /// Captured by the cannon with this index.
    CannonCaptured { cannon_index: usize },
    /// Launched from the cannon with this index.
    CannonLaunched { cannon_index: usize },
    /// One propulsion discharge (pressure spent: the release threshold).
    FartDischarge,
    /// Pressure crossed the release threshold while the control was idle.
    Growl,
    /// First water contact this tick, fast enough to splash.
    WaterSplash,
    /// A surface impact was resolved, with the applied impulse.
    CollisionImpact { impulse: i64 },
    /// Snow shed by an impact.
    SnowShed { amount: i64 },
    /// Teleported between portals.
    PortalTeleport { from: usize, to: usize },
}

} // verus!
