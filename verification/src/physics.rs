//! The per-tick physics of one avatar.
//!
//! A tick runs fixed stages in a fixed order, each depending on the previous
//! stage's values: time dilation, proximity triggers, buoyancy, cannons, the
//! finished spin, angular acceleration, gravity, tile flow forces, water
//! classification, propulsion, stick force, integration, collision
//! resolution and portals.  Every stage's effect is stated exactly as a
//! spec-level function of the incoming state.

use vstd::prelude::*;
use crate::fx::{
    SCALE, clamp_i, clip, fx_add, fx_clamp, fx_div, fx_div_spec, fx_max, fx_mul, fx_mul_spec,
    fx_sub, in_range, max_i,
};
use crate::guy::{Config, Event, FartState, Guy, CannonTimer};
use crate::level::{LevelInfo, ObjectKind};
use crate::tile::{Tile, tile_contains};
use crate::vec2::{Vec2, add_spec, clamp_len_spec, len_spec, normalize_spec, scale_spec, sub_spec, vec_in_range};

verus! {

/// Trigger radius of the finish point and of unicorns.
pub const TRIGGER_RADIUS: i64 = 1_500_000;

/// Trigger radius of bubblers.
pub const BUBBLER_RADIUS: i64 = 1_000_000;

/// The tick period after dilation by the first `n` tiles that contain `pos`
/// and carry a time scale.
pub open spec fn dt_dilated(tiles: Seq<Tile>, pos: Vec2, dt0: int, n: int) -> int
    decreases n,
{
    if n <= 0 {
        dt0
    } else {
        let prev = dt_dilated(tiles, pos, dt0, n - 1);
        match tiles[n - 1].params.time_scale {
            Option::Some(ts) => if tile_contains(tiles[n - 1], pos) {
                fx_mul_spec(prev, ts as int)
            } else {
                prev
            },
            Option::None => prev,
        }
    }
}

/// Time scales are non-negative, so a dilated tick period keeps its sign.
pub proof fn lemma_dt_dilated_nonneg(tiles: Seq<Tile>, pos: Vec2, dt0: int, n: int)
    requires
        0 <= dt0,
        forall|i: int| 0 <= i < tiles.len() ==> (#[trigger] tiles[i]).wf(),
        0 <= n <= tiles.len(),
    ensures
        0 <= dt_dilated(tiles, pos, dt0, n),
    decreases n,
{
    if n > 0 {
        lemma_dt_dilated_nonneg(tiles, pos, dt0, n - 1);
        match tiles[n - 1].params.time_scale {
            Option::Some(ts) => {
                if tile_contains(tiles[n - 1], pos) {
                    crate::fx::lemma_fx_mul_nonneg(
                        dt_dilated(tiles, pos, dt0, n - 1),
                        ts as int,
                    );
                }
            },
            Option::None => {},
        }
    }
}

/// Stage: any occupied tile with a time scale shrinks or stretches this
/// tick's period for this avatar only.
pub fn effective_dt(level: &LevelInfo, pos: Vec2, dt: i64) -> (r: i64)
    requires
        level.wf(),
        vec_in_range(pos),
        0 <= dt,
        in_range(dt as int),
    ensures
        r as int == dt_dilated(level.tiles@, pos, dt as int, level.tiles@.len() as int),
        0 <= r,
        in_range(r as int),
{
    proof {
        lemma_dt_dilated_nonneg(level.tiles@, pos, dt as int, level.tiles@.len() as int);
    }
    let mut d: i64 = dt;
    let n = level.tiles.len();
    let mut i: usize = 0;
    while i < n
        invariant
            0 <= i <= n,
            n == level.tiles@.len(),
            level.wf(),
            vec_in_range(pos),
            in_range(d as int),
            d as int == dt_dilated(level.tiles@, pos, dt as int, i as int),
        decreases n - i,
    {
        let tile = level.tiles[i];
        assert(level.tiles@[i as int].wf());
        match tile.params.time_scale {
            Option::Some(ts) => {
                if tile.contains(pos) {
                    d = fx_mul(d, ts);
                }
            },
            Option::None => {},
        }
        i = i + 1;
    }
    d
}

/// Whether any of the first `n` objects of the given kind is within the
/// trigger radius of `pos`.
pub open spec fn near_object(
    objects: Seq<crate::level::Object>,
    kind: ObjectKind,
    pos: Vec2,
    radius: int,
) -> bool {
    exists|j: int|
        0 <= j < objects.len() && objects[j].kind == kind && crate::vec2::dist_sq(pos, objects[j].pos)
            < radius * radius
}

/// Find whether an object of `kind` is within `radius` of `pos`.
pub fn scan_objects(level: &LevelInfo, kind: ObjectKind, pos: Vec2, radius: i64) -> (r: bool)
    requires
        level.wf(),
        vec_in_range(pos),
        0 <= radius,
        in_range(radius as int),
    ensures
        r == near_object(level.objects@, kind, pos, radius as int),
{
    let n = level.objects.len();
    let mut i: usize = 0;
    while i < n
        invariant
            0 <= i <= n,
            n == level.objects@.len(),
            level.wf(),
            vec_in_range(pos),
            0 <= radius,
            in_range(radius as int),
            forall|j: int|
                0 <= j < i ==> !(#[trigger] level.objects@[j].kind == kind
                    && crate::vec2::dist_sq(pos, level.objects@[j].pos) < radius as int
                    * radius as int),
        decreases n - i,
    {
        let obj = level.objects[i];
        if obj.kind == kind {
            if pos.within(obj.pos, radius) {
                return true;
            }
        }
        i = i + 1;
    }
    false
}

/// Stage: proximity triggers.  Reaching the finish sticks; unicorn contact
/// is one-shot and refills the pressure gauge to the maximum.
pub open spec fn triggers_spec(g: Guy, level_finish: Vec2, objects: Seq<crate::level::Object>, cfg: Config) -> Guy {
    let g1 = if crate::vec2::dist_sq(g.ball.pos, level_finish) < TRIGGER_RADIUS as int
        * TRIGGER_RADIUS as int {
        Guy { progress: crate::guy::GuyProgress { finished: true, ..g.progress }, ..g }
    } else {
        g
    };
    if !g1.touched_a_unicorn && near_object(objects, ObjectKind::Unicorn, g1.ball.pos,
        TRIGGER_RADIUS as int) {
        Guy {
            touched_a_unicorn: true,
            fart_state: FartState { fart_pressure: cfg.max_fart_pressure, ..g1.fart_state },
            ..g1
        }
    } else {
        g1
    }
}

pub fn triggers_stage(g: Guy, level: &LevelInfo, config: &Config) -> (r: Guy)
    requires
        g.wf(),
        level.wf(),
        config.wf(),
    ensures
        r == triggers_spec(g, level.finish_point, level.objects@, *config),
        r.wf(),
{
    let mut g1 = g;
    if g.ball.pos.within(level.finish_point, TRIGGER_RADIUS) {
        g1.progress.finished = true;
    }
    if !g1.touched_a_unicorn && scan_objects(level, ObjectKind::Unicorn, g1.ball.pos,
        TRIGGER_RADIUS) {
        g1.touched_a_unicorn = true;
        g1.fart_state.fart_pressure = config.max_fart_pressure;
    }
    g1
}

/// Stage: buoyancy.  An active bubble counts down and eases the velocity
/// toward the floating target speed; bubbler contact rearms the bubble.
pub open spec fn bubble_spec(g: Guy, objects: Seq<crate::level::Object>, cfg: Config, dt: int) -> Guy {
    let g1 = match g.bubble_timer {
        Option::Some(time) => {
            let t2 = clip(time - dt);
            let bt: Option<i64> = if t2 < 0 {
                Option::None
            } else {
                Option::Some(t2 as i64)
            };
            let target = scale_spec(normalize_spec(g.ball.vel), cfg.bubble_target_speed as int);
            let dv = clamp_len_spec(
                sub_spec(target, g.ball.vel),
                fx_mul_spec(cfg.bubble_acceleration as int, dt),
            );
            Guy {
                bubble_timer: bt,
                ball: crate::guy::Ball { vel: add_spec(g.ball.vel, dv), ..g.ball },
                ..g
            }
        },
        Option::None => g,
    };
    if near_object(objects, ObjectKind::Bubbler, g1.ball.pos, BUBBLER_RADIUS as int) {
        Guy { bubble_timer: Option::Some(cfg.bubble_time), ..g1 }
    } else {
        g1
    }
}

pub fn bubble_stage(g: Guy, level: &LevelInfo, config: &Config, dt: i64) -> (r: Guy)
    requires
        g.wf(),
        level.wf(),
        config.wf(),
        0 <= dt,
        in_range(dt as int),
    ensures
        r == bubble_spec(g, level.objects@, *config, dt as int),
        r.wf(),
{
    let mut g1 = g;
    match g.bubble_timer {
        Option::Some(time) => {
            let t2 = fx_sub(time, dt);
            g1.bubble_timer = if t2 < 0 {
                Option::None
            } else {
                Option::Some(t2)
            };
            let target = g.ball.vel.normalize_or_zero().scale(config.bubble_target_speed);
            let dv = target.sub(g.ball.vel).clamp_len(fx_mul(config.bubble_acceleration, dt));
            g1.ball.vel = g.ball.vel.add(dv);
        },
        Option::None => {},
    }
    if scan_objects(level, ObjectKind::Bubbler, g1.ball.pos, BUBBLER_RADIUS) {
        g1.bubble_timer = Option::Some(config.bubble_time);
    }
    g1
}

/// The cannon (last in level order) whose capture radius contains `pos`.
pub open spec fn capture_index(cannons: Seq<crate::level::Cannon>, pos: Vec2, act: int, n: int) -> Option<usize>
    decreases n,
{
    if n <= 0 {
        Option::None
    } else if crate::vec2::dist_sq(pos, cannons[n - 1].pos) < act * act {
        Option::Some((n - 1) as usize)
    } else {
        capture_index(cannons, pos, act, n - 1)
    }
}

/// A carried cannon timer must point into the level's cannon list.
pub open spec fn guy_compat(g: Guy, level_cannons: Seq<crate::level::Cannon>) -> bool {
    match g.cannon_timer {
        Option::Some(ct) => ct.cannon_index < level_cannons.len(),
        Option::None => true,
    }
}

/// Stage: cannons.  A free avatar entering a capture radius has its pressure
/// reset and a countdown started; a captured one is pinned to the cannon and,
/// on expiry, launched along the cannon's facing.  While captured, the rest
/// of the tick is skipped.
pub open spec fn cannon_spec(g: Guy, cannons: Seq<crate::level::Cannon>, cfg: Config, dt: int) -> (
    Guy,
    bool,
) {
    let g1 = if g.cannon_timer is None {
        match capture_index(cannons, g.ball.pos, cfg.cannon.activate_distance as int,
            cannons.len() as int) {
            Option::Some(ci) => Guy {
                fart_state: FartState { fart_pressure: 0i64, long_farting: false },
                cannon_timer: Option::Some(
                    CannonTimer { cannon_index: ci, time: cfg.cannon.shoot_time },
                ),
                ..g
            },
            Option::None => g,
        }
    } else {
        g
    };
    match g1.cannon_timer {
        Option::Some(ct) => {
            let cannon = cannons[ct.cannon_index as int];
            let t2 = clip(ct.time - dt);
            let pinned = Guy {
                ball: crate::guy::Ball {
                    pos: cannon.pos,
                    rot: clip(cannon.rot - crate::trig::HALF_PI_FX as int) as i64,
                    ..g1.ball
                },
                ..g1
            };
            if t2 < 0 {
                let dir = Vec2 {
                    x: crate::trig::cos_spec(cannon.rot as int) as i64,
                    y: crate::trig::sin_spec(cannon.rot as int) as i64,
                };
                let shift = scale_spec(
                    dir,
                    fx_mul_spec(cfg.cannon.activate_distance as int, 1_010_000),
                );
                (
                    Guy {
                        cannon_timer: Option::None,
                        ball: crate::guy::Ball {
                            pos: add_spec(pinned.ball.pos, shift),
                            vel: scale_spec(dir, cfg.cannon.strength as int),
                            w: 0i64,
                            ..pinned.ball
                        },
                        ..pinned
                    },
                    true,
                )
            } else {
                (
                    Guy {
                        cannon_timer: Option::Some(
                            CannonTimer { cannon_index: ct.cannon_index, time: t2 as i64 },
                        ),
                        ..pinned
                    },
                    true,
                )
            }
        },
        Option::None => (g1, false),
    }
}

/// Scan for a capturing cannon; the last within range wins, as the level
/// order has it.
fn capture_scan(level: &LevelInfo, pos: Vec2, act: i64) -> (r: Option<usize>)
    requires
        level.wf(),
        vec_in_range(pos),
        0 <= act,
        in_range(act as int),
    ensures
        r == capture_index(level.cannons@, pos, act as int, level.cannons@.len() as int),
        match r {
            Option::Some(ci) => ci < level.cannons@.len(),
            Option::None => true,
        },
{
    let n = level.cannons.len();
    let mut i: usize = n;
    while i > 0
        invariant
            0 <= i <= n,
            n == level.cannons@.len(),
            level.wf(),
            vec_in_range(pos),
            0 <= act,
            in_range(act as int),
            capture_index(level.cannons@, pos, act as int, n as int) == capture_index(
                level.cannons@,
                pos,
                act as int,
                i as int,
            ),
        decreases i,
    {
        let cannon = level.cannons[i - 1];
        if pos.within(cannon.pos, act) {
            return Option::Some(i - 1);
        }
        i = i - 1;
    }
    Option::None
}

pub fn cannon_stage(g: Guy, level: &LevelInfo, config: &Config, dt: i64, events: &mut Vec<Event>)
    -> (r: (Guy, bool))
    requires
        g.wf(),
        level.wf(),
        config.wf(),
        guy_compat(g, level.cannons@),
        0 <= dt,
        in_range(dt as int),
    ensures
        r == cannon_spec(g, level.cannons@, *config, dt as int),
        r.0.wf(),
        guy_compat(r.0, level.cannons@),
{
    let mut g1 = g;
    if g.cannon_timer.is_none() {
        match capture_scan(level, g.ball.pos, config.cannon.activate_distance) {
            Option::Some(ci) => {
                g1.fart_state = FartState { fart_pressure: 0, long_farting: false };
                g1.cannon_timer = Option::Some(
                    CannonTimer { cannon_index: ci, time: config.cannon.shoot_time },
                );
                events.push(Event::CannonCaptured { cannon_index: ci });
            },
            Option::None => {},
        }
    }
    match g1.cannon_timer {
        Option::Some(ct) => {
            let cannon = level.cannons[ct.cannon_index];
            let t2 = fx_sub(ct.time, dt);
            g1.ball.pos = cannon.pos;
            g1.ball.rot = fx_sub(cannon.rot, crate::trig::HALF_PI_FX);
            if t2 < 0 {
                g1.cannon_timer = Option::None;
                let dir = Vec2 {
                    x: crate::trig::cos_fx(cannon.rot),
                    y: crate::trig::sin_fx(cannon.rot),
                };
                let shift = dir.scale(fx_mul(config.cannon.activate_distance, 1_010_000));
                g1.ball.pos = g1.ball.pos.add(shift);
                g1.ball.vel = dir.scale(config.cannon.strength);
                g1.ball.w = 0;
                events.push(Event::CannonLaunched { cannon_index: ct.cannon_index });
            } else {
                g1.cannon_timer = Option::Some(
                    CannonTimer { cannon_index: ct.cannon_index, time: t2 },
                );
            }
            (g1, true)
        },
        Option::None => (g1, false),
    }
}

/// Stage: a finished avatar only spins decoratively around the finish point,
/// with its pressure forced to zero; the rest of the tick is skipped.
pub open spec fn finished_spec(g: Guy, finish: Vec2, dt: int) -> Guy {
    let dir = normalize_spec(sub_spec(g.ball.pos, finish));
    let turned = crate::vec2::rotate_by_spec(
        dir,
        crate::trig::cos_spec(dt),
        crate::trig::sin_spec(dt),
    );
    Guy {
        fart_state: FartState { fart_pressure: 0i64, ..g.fart_state },
        ball: crate::guy::Ball {
            rot: clip(g.ball.rot - dt) as i64,
            pos: add_spec(finish, turned),
            ..g.ball
        },
        ..g
    }
}

pub fn finished_stage(g: Guy, level: &LevelInfo, dt: i64) -> (r: Guy)
    requires
        g.wf(),
        level.wf(),
        0 <= dt,
        in_range(dt as int),
    ensures
        r == finished_spec(g, level.finish_point, dt as int),
        r.wf(),
{
    let mut g1 = g;
    g1.fart_state.fart_pressure = 0;
    g1.ball.rot = fx_sub(g.ball.rot, dt);
    let dir = g.ball.pos.sub(level.finish_point).normalize_or_zero();
    let turned = dir.rotate_by(crate::trig::cos_fx(dt), crate::trig::sin_fx(dt));
    g1.ball.pos = level.finish_point.add(turned);
    g1
}

/// Stage: angular acceleration from the roll input, asymmetrically clamped so
/// the angular speed never exceeds the configured maximum in either
/// direction.
pub open spec fn angular_spec(g: Guy, cfg: Config, dt: int) -> Guy {
    let roll = clamp_i(g.input.roll_direction as int, -(SCALE as int), SCALE as int);
    let accel = fx_mul_spec(
        fx_div_spec(fx_mul_spec(roll, cfg.angular_acceleration as int), crate::guy::mass_spec(g, cfg)),
        dt,
    );
    let lo = -max_i(clip(g.ball.w + cfg.max_angular_speed), 0);
    let hi = max_i(clip(cfg.max_angular_speed - g.ball.w), 0);
    Guy {
        ball: crate::guy::Ball {
            w: clip(g.ball.w + clamp_i(accel, lo, hi)) as i64,
            ..g.ball
        },
        ..g
    }
}

pub fn angular_stage(g: Guy, config: &Config, dt: i64) -> (r: Guy)
    requires
        g.wf(),
        config.wf(),
        0 <= dt,
        in_range(dt as int),
    ensures
        r == angular_spec(g, *config, dt as int),
        r.wf(),
{
    let mut g1 = g;
    let roll = fx_clamp(g.input.roll_direction, -SCALE, SCALE);
    let m = g.mass(config);
    let accel = fx_mul(fx_div(fx_mul(roll, config.angular_acceleration), m), dt);
    let lo = -fx_max(fx_add(g.ball.w, config.max_angular_speed), 0);
    let hi = fx_max(fx_sub(config.max_angular_speed, g.ball.w), 0);
    g1.ball.w = fx_add(g.ball.w, fx_clamp(accel, lo, hi));
    g1
}

/// Stage: gravity, unless a bubble is active.
pub open spec fn gravity_spec(g: Guy, cfg: Config, dt: int) -> Guy {
    if g.bubble_timer is None {
        Guy {
            ball: crate::guy::Ball {
                vel: Vec2 {
                    x: g.ball.vel.x,
                    y: clip(g.ball.vel.y - fx_mul_spec(cfg.gravity as int, dt)) as i64,
                },
                ..g.ball
            },
            ..g
        }
    } else {
        g
    }
}

pub fn gravity_stage(g: Guy, config: &Config, dt: i64) -> (r: Guy)
    requires
        g.wf(),
        config.wf(),
        0 <= dt,
        in_range(dt as int),
    ensures
        r == gravity_spec(g, *config, dt as int),
        r.wf(),
{
    let mut g1 = g;
    if g.bubble_timer.is_none() {
        g1.ball.vel.y = fx_sub(g.ball.vel.y, fx_mul(config.gravity, dt));
    }
    g1
}

/// One tile's contribution to the velocity and spin: drag relative to the
/// tile's flow, split into an along-flow part and a general friction part,
/// plus the tile's constant force.
pub open spec fn tile_force_one(t: Tile, vel: Vec2, w: int, mass: int, dt: int) -> (Vec2, int) {
    let rel = sub_spec(vel, t.flow);
    let fdir = normalize_spec(t.flow);
    let rva = crate::vec2::dot_spec(fdir, rel);
    let falong = scale_spec(
        scale_spec(crate::vec2::neg_spec(fdir), rva),
        t.params.friction_along_flow as int,
    );
    let fric = scale_spec(crate::vec2::neg_spec(rel), t.params.friction as int);
    let total = add_spec(add_spec(falong, t.params.additional_force), fric);
    let dv = crate::vec2::div_scalar_spec(scale_spec(total, dt), mass);
    let w2 = clip(w - fx_div_spec(fx_mul_spec(fx_mul_spec(w, t.params.friction as int), dt), mass));
    (add_spec(vel, dv), w2)
}

/// Velocity and spin after the forces of the first `n` tiles containing
/// `pos`; overlapping tiles accumulate in level order.
pub open spec fn tile_forces(
    tiles: Seq<Tile>,
    pos: Vec2,
    mass: int,
    dt: int,
    vel: Vec2,
    w: int,
    n: int,
) -> (Vec2, int)
    decreases n,
{
    if n <= 0 {
        (vel, w)
    } else {
        let prev = tile_forces(tiles, pos, mass, dt, vel, w, n - 1);
        if tile_contains(tiles[n - 1], pos) {
            tile_force_one(tiles[n - 1], prev.0, prev.1, mass, dt)
        } else {
            prev
        }
    }
}

/// Stage: flow and friction forces of every tile containing the ball's
/// center.
pub fn tile_forces_stage(g: Guy, level: &LevelInfo, config: &Config, dt: i64) -> (r: Guy)
    requires
        g.wf(),
        level.wf(),
        config.wf(),
        0 <= dt,
        in_range(dt as int),
    ensures
        ({
            let f = tile_forces(
                level.tiles@,
                g.ball.pos,
                crate::guy::mass_spec(g, *config),
                dt as int,
                g.ball.vel,
                g.ball.w as int,
                level.tiles@.len() as int,
            );
            r == Guy { ball: crate::guy::Ball { vel: f.0, w: f.1 as i64, ..g.ball }, ..g }
        }),
        r.wf(),
{
    let m = g.mass(config);
    let mut vel = g.ball.vel;
    let mut w = g.ball.w;
    let n = level.tiles.len();
    let mut i: usize = 0;
    while i < n
        invariant
            0 <= i <= n,
            n == level.tiles@.len(),
            level.wf(),
            g.wf(),
            config.wf(),
            0 <= dt,
            in_range(dt as int),
            m as int == crate::guy::mass_spec(g, *config),
            0 < m,
            in_range(m as int),
            vec_in_range(vel),
            in_range(w as int),
            (vel, w as int) == tile_forces(level.tiles@, g.ball.pos, m as int, dt as int,
                g.ball.vel, g.ball.w as int, i as int),
        decreases n - i,
    {
        let tile = level.tiles[i];
        assert(level.tiles@[i as int].wf());
        if tile.contains(g.ball.pos) {
            let rel = vel.sub(tile.flow);
            let fdir = tile.flow.normalize_or_zero();
            let rva = fdir.dot(rel);
            let falong = fdir.neg().scale(rva).scale(tile.params.friction_along_flow);
            let fric = rel.neg().scale(tile.params.friction);
            let total = falong.add(tile.params.additional_force).add(fric);
            let dv = total.scale(dt).div_scalar(m);
            vel = vel.add(dv);
            w = fx_sub(w, fx_div(fx_mul(fx_mul(w, tile.params.friction), dt), m));
        }
        i = i + 1;
    }
    let mut g1 = g;
    g1.ball.vel = vel;
    g1.ball.w = w;
    g1
}

/// The sampling point behind the ball along its rotation (used for water
/// classification, decoupled from the flow pass at the center).
pub open spec fn butt_spec(g: Guy) -> Vec2 {
    let offset = crate::vec2::rotate_by_spec(
        Vec2 { x: 0i64, y: (-fx_mul_spec(g.ball.radius as int, 900_000)) as i64 },
        crate::trig::cos_spec(g.ball.rot as int),
        crate::trig::sin_spec(g.ball.rot as int),
    );
    add_spec(g.ball.pos, offset)
}

/// Whether any water tile contains the point.
pub open spec fn in_water_at(tiles: Seq<Tile>, p: Vec2) -> bool {
    exists|j: int| 0 <= j < tiles.len() && tiles[j].params.water && tile_contains(tiles[j], p)
}

pub fn butt_point(g: &Guy) -> (r: Vec2)
    requires
        g.wf(),
    ensures
        r == butt_spec(*g),
        r.wf(),
{
    let off0 = Vec2 { x: 0, y: -fx_mul(g.ball.radius, 900_000) };
    let offset = off0.rotate_by(crate::trig::cos_fx(g.ball.rot), crate::trig::sin_fx(g.ball.rot));
    g.ball.pos.add(offset)
}

pub fn water_scan(level: &LevelInfo, p: Vec2) -> (r: bool)
    requires
        level.wf(),
        p.wf(),
    ensures
        r == in_water_at(level.tiles@, p),
{
    let n = level.tiles.len();
    let mut i: usize = 0;
    while i < n
        invariant
            0 <= i <= n,
            n == level.tiles@.len(),
            level.wf(),
            p.wf(),
            forall|j: int|
                0 <= j < i ==> !(#[trigger] level.tiles@[j].params.water && tile_contains(
                    level.tiles@[j],
                    p,
                )),
        decreases n - i,
    {
        let tile = level.tiles[i];
        assert(level.tiles@[i as int].wf());
        if tile.params.water {
            if tile.contains(p) {
                return true;
            }
        }
        i = i + 1;
    }
    false
}

/// Stage: the propulsion state machine.  Pressure charges over time (faster
/// while the control is held, draining instead while it cuts a long fart
/// short); a discharge fires when the released threshold is reached with the
/// control held, or always at the hard maximum, spending exactly the
/// threshold and entering continuous thrust; thrust pushes along the facing
/// every tick until the control is released.
///
/// The result carries two flags: a discharge happened; the growl cue fired.
pub open spec fn charge_spec(g: Guy, cfg: Config, dt: int) -> FartState {
    let lf0 = if cfg.fart_continued_force == 0 {
        false
    } else {
        g.fart_state.long_farting
    };
    if g.input.force_fart {
        if lf0 {
            let p2 = clip(g.fart_state.fart_pressure - fx_mul_spec(
                dt,
                cfg.fart_continuation_pressure_speed as int,
            ));
            if p2 < 0 {
                FartState { fart_pressure: 0i64, long_farting: false }
            } else {
                FartState { fart_pressure: p2 as i64, long_farting: lf0 }
            }
        } else {
            FartState {
                fart_pressure: clip(g.fart_state.fart_pressure + fx_mul_spec(
                    dt,
                    cfg.force_fart_pressure_multiplier as int,
                )) as i64,
                long_farting: lf0,
            }
        }
    } else {
        FartState {
            fart_pressure: clip(g.fart_state.fart_pressure + dt) as i64,
            long_farting: false,
        }
    }
}

pub open spec fn fart_spec(g: Guy, cfg: Config, dt: int) -> (Guy, bool, bool) {
    let could_fart = g.fart_state.fart_pressure >= cfg.fart_pressure_released;
    let charged = charge_spec(g, cfg, dt);
    let m = crate::guy::mass_spec(g, cfg);
    if charged.long_farting {
        let thrust = crate::vec2::rotate_by_spec(
            Vec2 { x: 0i64, y: fx_mul_spec(cfg.fart_continued_force as int, dt) as i64 },
            crate::trig::cos_spec(g.ball.rot as int),
            crate::trig::sin_spec(g.ball.rot as int),
        );
        let dv = crate::vec2::div_scalar_spec(thrust, m);
        (
            Guy {
                fart_state: charged,
                ball: crate::guy::Ball { vel: add_spec(g.ball.vel, dv), ..g.ball },
                ..g
            },
            false,
            false,
        )
    } else if (charged.fart_pressure >= cfg.fart_pressure_released && g.input.force_fart)
        || charged.fart_pressure >= cfg.max_fart_pressure {
        let spent = FartState {
            fart_pressure: (charged.fart_pressure - cfg.fart_pressure_released) as i64,
            long_farting: true,
        };
        let impulse = crate::vec2::rotate_by_spec(
            Vec2 { x: 0i64, y: cfg.fart_strength },
            crate::trig::cos_spec(g.ball.rot as int),
            crate::trig::sin_spec(g.ball.rot as int),
        );
        let dv = crate::vec2::div_scalar_spec(impulse, m);
        (
            Guy {
                fart_state: spent,
                bubble_timer: Option::None,
                ball: crate::guy::Ball { vel: add_spec(g.ball.vel, dv), ..g.ball },
                ..g
            },
            true,
            false,
        )
    } else if !could_fart && charged.fart_pressure >= cfg.fart_pressure_released {
        (
            Guy {
                fart_state: charged,
                animation: crate::guy::GuyAnimation { growl_progress: Option::Some(0i64) },
                ..g
            },
            false,
            true,
        )
    } else {
        (Guy { fart_state: charged, ..g }, false, false)
    }
}

/// The pressure gauge is monotonically non-negative: charging, draining and
/// discharging all leave it at or above zero, and a discharge spends exactly
/// the release threshold out of the charged gauge — which the discharge
/// guard guarantees is covered.
pub proof fn lemma_fart_pressure(g: Guy, cfg: Config, dt: int)
    requires
        g.wf(),
        cfg.wf(),
        0 <= dt,
        in_range(dt),
    ensures
        charge_spec(g, cfg, dt).fart_pressure >= 0,
        fart_spec(g, cfg, dt).0.fart_state.fart_pressure >= 0,
        fart_spec(g, cfg, dt).1 ==> {
            &&& charge_spec(g, cfg, dt).fart_pressure >= cfg.fart_pressure_released
            &&& fart_spec(g, cfg, dt).0.fart_state.fart_pressure == charge_spec(
                g,
                cfg,
                dt,
            ).fart_pressure - cfg.fart_pressure_released
        },
{
    crate::fx::lemma_fx_mul_nonneg(dt, cfg.force_fart_pressure_multiplier as int);
}

pub fn fart_stage(g: Guy, config: &Config, dt: i64) -> (r: (Guy, bool, bool))
    requires
        g.wf(),
        config.wf(),
        0 <= dt,
        in_range(dt as int),
    ensures
        r == fart_spec(g, *config, dt as int),
        r.0.wf(),
        r.0.fart_state.fart_pressure >= 0,
{
    let could_fart = g.fart_state.fart_pressure >= config.fart_pressure_released;
    let lf0 = if config.fart_continued_force == 0 {
        false
    } else {
        g.fart_state.long_farting
    };
    let charged: FartState = if g.input.force_fart {
        if lf0 {
            let p2 = fx_sub(
                g.fart_state.fart_pressure,
                fx_mul(dt, config.fart_continuation_pressure_speed),
            );
            if p2 < 0 {
                FartState { fart_pressure: 0, long_farting: false }
            } else {
                FartState { fart_pressure: p2, long_farting: lf0 }
            }
        } else {
            FartState {
                fart_pressure: fx_add(
                    g.fart_state.fart_pressure,
                    fx_mul(dt, config.force_fart_pressure_multiplier),
                ),
                long_farting: lf0,
            }
        }
    } else {
        FartState { fart_pressure: fx_add(g.fart_state.fart_pressure, dt), long_farting: false }
    };
    let m = g.mass(config);
    let mut g1 = g;
    if charged.long_farting {
        let thrust = Vec2 { x: 0, y: fx_mul(config.fart_continued_force, dt) }.rotate_by(
            crate::trig::cos_fx(g.ball.rot),
            crate::trig::sin_fx(g.ball.rot),
        );
        g1.fart_state = charged;
        g1.ball.vel = g.ball.vel.add(thrust.div_scalar(m));
        (g1, false, false)
    } else if (charged.fart_pressure >= config.fart_pressure_released && g.input.force_fart)
        || charged.fart_pressure >= config.max_fart_pressure {
        g1.fart_state = FartState {
            fart_pressure: charged.fart_pressure - config.fart_pressure_released,
            long_farting: true,
        };
        g1.bubble_timer = Option::None;
        let impulse = Vec2 { x: 0, y: config.fart_strength }.rotate_by(
            crate::trig::cos_fx(g.ball.rot),
            crate::trig::sin_fx(g.ball.rot),
        );
        g1.ball.vel = g.ball.vel.add(impulse.div_scalar(m));
        (g1, true, false)
    } else if !could_fart && charged.fart_pressure >= config.fart_pressure_released {
        g1.fart_state = charged;
        g1.animation = crate::guy::GuyAnimation { growl_progress: Option::Some(0) };
        (g1, false, true)
    } else {
        g1.fart_state = charged;
        (g1, false, false)
    }
}

/// Stage: the growl cue progress advances and expires.
pub open spec fn growl_spec(g: Guy, cfg: Config, dt: int) -> Guy {
    match g.animation.growl_progress {
        Option::Some(growl) => {
            let g2 = clip(growl + fx_div_spec(dt, cfg.growl_time as int));
            Guy {
                animation: crate::guy::GuyAnimation {
                    growl_progress: if g2 >= SCALE as int {
                        Option::None
                    } else {
                        Option::Some(g2 as i64)
                    },
                },
                ..g
            }
        },
        Option::None => g,
    }
}

pub fn growl_stage(g: Guy, config: &Config, dt: i64) -> (r: Guy)
    requires
        g.wf(),
        config.wf(),
        0 <= dt,
        in_range(dt as int),
    ensures
        r == growl_spec(g, *config, dt as int),
        r.wf(),
{
    let mut g1 = g;
    match g.animation.growl_progress {
        Option::Some(growl) => {
            let g2 = fx_add(growl, fx_div(dt, config.growl_time));
            g1.animation = crate::guy::GuyAnimation {
                growl_progress: if g2 >= SCALE {
                    Option::None
                } else {
                    Option::Some(g2)
                },
            };
        },
        Option::None => {},
    }
    g1
}

/// Stage: apply the residual stick force and fade it linearly toward zero.
pub open spec fn stick_spec(g: Guy, cfg: Config, dt: int) -> Guy {
    let m = crate::guy::mass_spec(g, cfg);
    let dv = scale_spec(crate::vec2::div_scalar_spec(g.stick_force, m), dt);
    let fade = clamp_len_spec(g.stick_force, fx_mul_spec(cfg.stick_force_fadeout_speed as int, dt));
    Guy {
        ball: crate::guy::Ball { vel: add_spec(g.ball.vel, dv), ..g.ball },
        stick_force: sub_spec(g.stick_force, fade),
        ..g
    }
}

pub fn stick_stage(g: Guy, config: &Config, dt: i64) -> (r: Guy)
    requires
        g.wf(),
        config.wf(),
        0 <= dt,
        in_range(dt as int),
    ensures
        r == stick_spec(g, *config, dt as int),
        r.wf(),
{
    let m = g.mass(config);
    let mut g1 = g;
    g1.ball.vel = g.ball.vel.add(g.stick_force.div_scalar(m).scale(dt));
    let fade = g.stick_force.clamp_len(fx_mul(config.stick_force_fadeout_speed, dt));
    g1.stick_force = g.stick_force.sub(fade);
    g1
}

/// Stage: explicit Euler integration of position and rotation.
pub open spec fn integrate_spec(g: Guy, dt: int) -> Guy {
    Guy {
        ball: crate::guy::Ball {
            pos: add_spec(g.ball.pos, scale_spec(g.ball.vel, dt)),
            rot: clip(g.ball.rot + fx_mul_spec(g.ball.w as int, dt)) as i64,
            ..g.ball
        },
        ..g
    }
}

pub fn integrate_stage(g: Guy, dt: i64) -> (r: Guy)
    requires
        g.wf(),
        0 <= dt,
        in_range(dt as int),
    ensures
        r == integrate_spec(g, dt as int),
        r.wf(),
{
    let mut g1 = g;
    g1.ball.pos = g.ball.pos.add(g.ball.vel.scale(dt));
    g1.ball.rot = fx_add(g.ball.rot, fx_mul(g.ball.w, dt));
    g1
}

/// The first portal whose trigger radius the avatar entered this tick
/// (outside at the previous position, inside now), together with its
/// destination.
pub open spec fn portal_hit(
    portals: Seq<crate::level::Portal>,
    prev_pos: Vec2,
    pos: Vec2,
    size: int,
    k: int,
) -> Option<(usize, usize)>
    decreases portals.len() - k,
{
    if k < 0 || k >= portals.len() {
        Option::None
    } else {
        let p = portals[k];
        if !(crate::vec2::dist_sq(prev_pos, p.pos) < size * size) && crate::vec2::dist_sq(pos, p.pos)
            < size * size && p.dest is Some {
            Option::Some((k as usize, p.dest->Some_0))
        } else {
            portal_hit(portals, prev_pos, pos, size, k + 1)
        }
    }
}

/// Stage: portal teleport on entering a trigger radius.
pub open spec fn portal_spec(
    g: Guy,
    portals: Seq<crate::level::Portal>,
    prev_pos: Vec2,
    size: int,
) -> Guy {
    match portal_hit(portals, prev_pos, g.ball.pos, size, 0) {
        Option::Some(hit) => Guy {
            ball: crate::guy::Ball { pos: portals[hit.1 as int].pos, ..g.ball },
            ..g
        },
        Option::None => g,
    }
}

pub fn portal_stage(g: Guy, level: &LevelInfo, config: &Config, prev_pos: Vec2, events: &mut Vec<
    Event,
>) -> (r: Guy)
    requires
        g.wf(),
        level.wf(),
        config.wf(),
        vec_in_range(prev_pos),
    ensures
        r == portal_spec(g, level.portals@, prev_pos, config.portal_size as int),
        r.wf(),
{
    let n = level.portals.len();
    let mut i: usize = 0;
    while i < n
        invariant
            0 <= i <= n,
            n == level.portals@.len(),
            level.wf(),
            config.wf(),
            g.wf(),
            vec_in_range(prev_pos),
            portal_hit(level.portals@, prev_pos, g.ball.pos, config.portal_size as int, 0)
                == portal_hit(
                level.portals@,
                prev_pos,
                g.ball.pos,
                config.portal_size as int,
                i as int,
            ),
        decreases n - i,
    {
        let p = level.portals[i];
        if !prev_pos.within(p.pos, config.portal_size) && g.ball.pos.within(
            p.pos,
            config.portal_size,
        ) {
            match p.dest {
                Option::Some(d) => {
                    let mut g1 = g;
                    g1.ball.pos = level.portals[d].pos;
                    events.push(Event::PortalTeleport { from: i, to: d });
                    return g1;
                },
                Option::None => {},
            }
        }
        i = i + 1;
    }
    g
}

/// One whole tick for one avatar against one level snapshot.
///
/// The stages run in their fixed order; capture by a cannon or the finished
/// state skip the remainder, and at most one collision is resolved.
#[verifier::opaque]
pub open spec fn tick_spec(
    g: Guy,
    surfaces: Seq<crate::surface::Surface>,
    tiles: Seq<Tile>,
    objects: Seq<crate::level::Object>,
    cannons: Seq<crate::level::Cannon>,
    portals: Seq<crate::level::Portal>,
    finish: Vec2,
    cfg: Config,
    dt0: int,
) -> Guy {
    let dt = dt_dilated(tiles, g.ball.pos, dt0, tiles.len() as int);
    let prev_pos = g.ball.pos;
    let g1 = triggers_spec(g, finish, objects, cfg);
    let g2 = bubble_spec(g1, objects, cfg, dt);
    let c = cannon_spec(g2, cannons, cfg, dt);
    if c.1 {
        c.0
    } else if c.0.progress.finished {
        finished_spec(c.0, finish, dt)
    } else {
        let g4 = angular_spec(c.0, cfg, dt);
        let g5 = gravity_spec(g4, cfg, dt);
        let f = tile_forces(
            tiles,
            g5.ball.pos,
            crate::guy::mass_spec(g5, cfg),
            dt,
            g5.ball.vel,
            g5.ball.w as int,
            tiles.len() as int,
        );
        let g6 = Guy { ball: crate::guy::Ball { vel: f.0, w: f.1 as i64, ..g5.ball }, ..g5 };
        let fa = fart_spec(g6, cfg, dt);
        let g8 = growl_spec(fa.0, cfg, dt);
        let g9 = stick_spec(g8, cfg, dt);
        let g10 = integrate_spec(g9, dt);
        let g11 = match crate::collision::best_candidate(surfaces, g10, cfg,
            surfaces.len() as int) {
            Option::Some(ci) => crate::collision::resolve_spec(g10, surfaces[ci as int], cfg, dt).0,
            Option::None => Guy { stick_force: Vec2 { x: 0i64, y: 0i64 }, ..g10 },
        };
        portal_spec(g11, portals, prev_pos, cfg.portal_size as int)
    }
}

/// Advance one avatar by one tick, collecting the tick's discrete events.
#[verifier::rlimit(60)]
pub fn update_guy(
    guy: &mut Guy,
    level: &LevelInfo,
    config: &Config,
    delta_time: i64,
    events: &mut Vec<Event>,
)
    requires
        old(guy).wf(),
        level.wf(),
        config.wf(),
        guy_compat(*old(guy), level.cannons@),
        0 <= delta_time,
        in_range(delta_time as int),
    ensures
        *final(guy) == tick_spec(
            *old(guy),
            level.surfaces@,
            level.tiles@,
            level.objects@,
            level.cannons@,
            level.portals@,
            level.finish_point,
            *config,
            delta_time as int,
        ),
        final(guy).wf(),
        guy_compat(*final(guy), level.cannons@),
{
    proof {
        reveal(crate::physics::tick_spec);
    }
    let g = *guy;
    let dt = effective_dt(level, g.ball.pos, delta_time);
    let prev_pos = g.ball.pos;
    let was_water = crate::collision::water_contact(&level.surfaces, g.ball.pos, g.ball.radius);
    let g1 = triggers_stage(g, level, config);
    if g1.progress.finished && !g.progress.finished {
        events.push(Event::Finished);
    }
    if g1.touched_a_unicorn && !g.touched_a_unicorn {
        events.push(Event::UnicornTouched);
    }
    let g2 = bubble_stage(g1, level, config, dt);
    let (g3, captured) = cannon_stage(g2, level, config, dt, events);
    if captured {
        *guy = g3;
        return ;
    }
    if g3.progress.finished {
        *guy = finished_stage(g3, level, dt);
        return ;
    }
    let g4 = angular_stage(g3, config, dt);
    let g5 = gravity_stage(g4, config, dt);
    let g6 = tile_forces_stage(g5, level, config, dt);
    let (g7, discharged, growled) = fart_stage(g6, config, dt);
    if discharged {
        events.push(Event::FartDischarge);
    }
    if growled {
        events.push(Event::Growl);
    }
    let g8 = growl_stage(g7, config, dt);
    let g9 = stick_stage(g8, config, dt);
    let g10 = integrate_stage(g9, dt);
    if !was_water {
        if splash_scan(&level.surfaces, &g10) {
            events.push(Event::WaterSplash);
        }
    }
    let g11 = match crate::collision::find_collision(&level.surfaces, &g10, config) {
        Option::Some(ci) => {
            let s = level.surfaces[ci];
            assert(level.surfaces@[ci as int].wf());
            let (resolved, impulse, shed) = crate::collision::resolve_collision(
                g10,
                &s,
                config,
                dt,
            );
            events.push(Event::CollisionImpact { impulse });
            if shed > 0 {
                events.push(Event::SnowShed { amount: shed });
            }
            resolved
        },
        Option::None => {
            let mut gz = g10;
            gz.stick_force = Vec2 { x: 0, y: 0 };
            gz
        },
    };
    let g12 = portal_stage(g11, level, config, prev_pos, events);
    *guy = g12;
}

/// A splashing water contact: some water surface is penetrated and the
/// approach is fast enough to be audible.
pub open spec fn splashing(surfaces: Seq<crate::surface::Surface>, g: Guy) -> bool {
    exists|j: int|
        0 <= j < surfaces.len() && surfaces[j].params.water && g.ball.radius as int - len_spec(
            vector_from_spec_at(surfaces[j], g),
        ) > crate::collision::EPS as int && abs_i_pub(
            crate::vec2::dot_spec(vector_from_spec_at(surfaces[j], g), g.ball.vel),
        ) > crate::collision::SPLASH_SPEED as int
}

/// The collision vector of a surface at the avatar's position.
pub open spec fn vector_from_spec_at(s: crate::surface::Surface, g: Guy) -> Vec2 {
    crate::surface::vector_from_spec(s, g.ball.pos)
}

/// The absolute value, re-exported for spec readability.
pub open spec fn abs_i_pub(a: int) -> int {
    crate::fx::abs_i(a)
}

fn splash_scan(surfaces: &Vec<crate::surface::Surface>, g: &Guy) -> (r: bool)
    requires
        forall|i: int| 0 <= i < surfaces@.len() ==> #[trigger] surfaces@[i].wf(),
        g.wf(),
    ensures
        r == splashing(surfaces@, *g),
{
    let n = surfaces.len();
    let mut i: usize = 0;
    while i < n
        invariant
            0 <= i <= n,
            n == surfaces@.len(),
            forall|k: int| 0 <= k < surfaces@.len() ==> #[trigger] surfaces@[k].wf(),
            g.wf(),
            forall|j: int|
                0 <= j < i ==> !(#[trigger] surfaces@[j].params.water && g.ball.radius as int
                    - len_spec(vector_from_spec_at(surfaces@[j], *g))
                    > crate::collision::EPS as int && abs_i_pub(
                    crate::vec2::dot_spec(vector_from_spec_at(surfaces@[j], *g), g.ball.vel),
                ) > crate::collision::SPLASH_SPEED as int),
        decreases n - i,
    {
        let s = &surfaces[i];
        assert(surfaces@[i as int].wf());
        if s.params.water {
            let v = s.vector_from(g.ball.pos);
            let lv = v.len();
            let pen = crate::fx::fx_sub(g.ball.radius, lv);
            if pen > crate::collision::EPS {
                let speed = crate::fx::fx_abs(v.dot(g.ball.vel));
                if speed > crate::collision::SPLASH_SPEED {
                    return true;
                }
            }
        }
        i = i + 1;
    }
    false
}

} // verus!
