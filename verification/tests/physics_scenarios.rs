use fartball::fx::SCALE;
use fartball::guy::{CannonConfig, Config, Event, Guy};
use fartball::level::{Cannon, LevelInfo};
use fartball::physics::update_guy;
use fartball::surface::{Surface, SurfaceParams};
use fartball::vec2::Vec2;

fn base_config() -> Config {
    Config {
        gravity: 10 * SCALE,
        angular_acceleration: SCALE,
        max_angular_speed: 4 * SCALE,
        guy_radius: 500_000,
        guy_mass: SCALE,
        max_penetration: 1_000_000,
        fart_pressure_released: 1_000_000_000,
        max_fart_pressure: 2_000_000_000,
        fart_continuation_pressure_speed: SCALE,
        force_fart_pressure_multiplier: 2 * SCALE,
        fart_continued_force: SCALE,
        fart_strength: 10 * SCALE,
        growl_time: SCALE,
        bubble_time: SCALE,
        bubble_target_speed: SCALE,
        bubble_acceleration: SCALE,
        stick_force_fadeout_speed: SCALE,
        snow_falloff_impulse_min: 0,
        snow_falloff_impulse_max: SCALE,
        max_snow_layer: SCALE,
        cannon: CannonConfig { activate_distance: SCALE, shoot_time: 100_000, strength: 5 * SCALE },
        portal_size: SCALE,
    }
}

fn floor_params(bounciness: i64) -> SurfaceParams {
    SurfaceParams {
        bounciness,
        min_bounce_vel: 0,
        friction: 0,
        speed_friction: 0,
        rotation_friction: 0,
        stick_strength: 0,
        max_stick_force: 0,
        fallthrough_speed: 0,
        non_collidable: false,
        water: false,
        snow: false,
    }
}

fn level_with_floor(bounciness: i64) -> LevelInfo {
    let mut level = LevelInfo::empty();
    level.finish_point = Vec2 { x: 100_000_000, y: 100_000_000 };
    level.surfaces.push(Surface {
        p1: Vec2 { x: -10_000_000, y: 0 },
        p2: Vec2 { x: 10_000_000, y: 0 },
        flow: 0,
        params: floor_params(bounciness),
    });
    level
}

#[test]
fn dropped_guy_settles_on_the_floor() {
    // Drop from (0, 5) with radius 0.5 onto a floor at y = 0 spanning
    // x in [-10, 10], bounciness 0.3, gravity 10, dt = 0.01: the avatar must
    // settle at height ~0.5 with vertical speed ~0.
    let config = base_config();
    let level = level_with_floor(300_000);
    let mut guy = Guy::spawn(1, Vec2 { x: 0, y: 5_000_000 }, &config);
    let mut events: Vec<Event> = Vec::new();
    for _ in 0..3000 {
        update_guy(&mut guy, &level, &config, 10_000, &mut events);
    }
    let dy = guy.ball.pos.y - 500_000;
    assert!(dy.abs() <= 5_000, "settled height off by {dy}");
    assert!(guy.ball.vel.y.abs() <= 150_000, "vertical speed {}", guy.ball.vel.y);
    assert_eq!(guy.ball.pos.x, 0);
}

#[test]
fn resting_guy_stays_at_rest() {
    // Zero bounciness: once resting exactly at contact height, a tick
    // reproduces the resting state bit for bit.
    let config = base_config();
    let level = level_with_floor(0);
    let mut guy = Guy::spawn(1, Vec2 { x: 0, y: 500_000 }, &config);
    let mut events: Vec<Event> = Vec::new();
    update_guy(&mut guy, &level, &config, 10_000, &mut events);
    assert_eq!(guy.ball.pos, Vec2 { x: 0, y: 500_000 });
    assert_eq!(guy.ball.vel, Vec2 { x: 0, y: 0 });
    assert_eq!(guy.ball.w, 0);
    let pressure_before = guy.fart_state.fart_pressure;
    update_guy(&mut guy, &level, &config, 10_000, &mut events);
    assert_eq!(guy.ball.pos, Vec2 { x: 0, y: 500_000 });
    assert_eq!(guy.ball.vel, Vec2 { x: 0, y: 0 });
    assert_eq!(guy.fart_state.fart_pressure, pressure_before + 10_000);
}

#[test]
fn deeper_of_two_penetrated_surfaces_is_resolved() {
    // Two parallel floors at different heights are both penetrated; the
    // higher one is penetrated deeper and must win the tie-break.
    let config = base_config();
    let mut level = LevelInfo::empty();
    level.finish_point = Vec2 { x: 100_000_000, y: 100_000_000 };
    level.surfaces.push(Surface {
        p1: Vec2 { x: -10_000_000, y: 0 },
        p2: Vec2 { x: 10_000_000, y: 0 },
        flow: 0,
        params: floor_params(0),
    });
    level.surfaces.push(Surface {
        p1: Vec2 { x: -10_000_000, y: 100_000 },
        p2: Vec2 { x: 10_000_000, y: 100_000 },
        flow: 0,
        params: floor_params(0),
    });
    // Falling fast enough to penetrate both floors after one tick: the
    // center ends at 0.459, penetrating the y=0 floor by 0.041 and the
    // y=0.1 floor by 0.141.  The deeper candidate wins, so the avatar is
    // pushed out to 0.6 exactly, not to 0.5.
    let mut guy = Guy::spawn(1, Vec2 { x: 0, y: 500_000 }, &config);
    guy.ball.vel = Vec2 { x: 0, y: -4_000_000 };
    let mut events: Vec<Event> = Vec::new();
    update_guy(&mut guy, &level, &config, 10_000, &mut events);
    assert_eq!(guy.ball.pos.y, 600_000);
    let impacts = events
        .iter()
        .filter(|e| matches!(e, Event::CollisionImpact { .. }))
        .count();
    assert_eq!(impacts, 1, "exactly one collision resolved");
}

#[test]
fn cannon_captures_counts_down_and_launches() {
    // Cannon at the origin facing along +x; the avatar enters the capture
    // radius, the countdown elapses, and the launch places it at
    // activate_distance * 1.01 along the facing with the configured speed.
    let config = base_config();
    let mut level = LevelInfo::empty();
    level.finish_point = Vec2 { x: 100_000_000, y: 100_000_000 };
    level.cannons.push(Cannon { pos: Vec2 { x: 0, y: 0 }, rot: 0 });
    let mut guy = Guy::spawn(1, Vec2 { x: 0, y: 500_000 }, &config);
    let mut events: Vec<Event> = Vec::new();
    let mut launched = false;
    for _ in 0..20 {
        update_guy(&mut guy, &level, &config, 10_000, &mut events);
        if events.iter().any(|e| matches!(e, Event::CannonLaunched { .. })) {
            launched = true;
            break;
        }
    }
    assert!(launched);
    assert_eq!(guy.ball.pos, Vec2 { x: 1_010_000, y: 0 });
    assert_eq!(guy.ball.vel, Vec2 { x: 5_000_000, y: 0 });
    assert_eq!(guy.ball.w, 0);
    assert!(guy.cannon_timer.is_none());
    assert!(events.iter().any(|e| matches!(e, Event::CannonCaptured { cannon_index: 0 })));
}

#[test]
fn fart_discharge_spends_exactly_the_threshold() {
    let mut config = base_config();
    config.fart_pressure_released = 1_000_000;
    config.max_fart_pressure = 3_000_000;
    let level = LevelInfo::empty();
    let mut guy = Guy::spawn(1, Vec2 { x: 0, y: 5_000_000 }, &config);
    guy.fart_state.fart_pressure = 1_000_000;
    guy.input.force_fart = true;
    let mut events: Vec<Event> = Vec::new();
    update_guy(&mut guy, &level, &config, 10_000, &mut events);
    // Charged by dt * multiplier = 20_000 while held, then spent the
    // threshold on discharge.
    assert_eq!(guy.fart_state.fart_pressure, 20_000);
    assert!(guy.fart_state.long_farting);
    assert!(events.iter().any(|e| matches!(e, Event::FartDischarge)));
    assert!(guy.ball.vel.y > 0, "discharge pushes the upright avatar up");
}

#[test]
fn fart_pressure_never_goes_negative() {
    let mut config = base_config();
    config.fart_pressure_released = 1_000_000;
    config.max_fart_pressure = 3_000_000;
    config.fart_continuation_pressure_speed = 100 * SCALE;
    let level = LevelInfo::empty();
    let mut guy = Guy::spawn(1, Vec2 { x: 0, y: 5_000_000 }, &config);
    guy.fart_state.fart_pressure = 500_000;
    guy.fart_state.long_farting = true;
    guy.input.force_fart = true;
    let mut events: Vec<Event> = Vec::new();
    for _ in 0..10 {
        update_guy(&mut guy, &level, &config, 10_000, &mut events);
        assert!(guy.fart_state.fart_pressure >= 0);
    }
    // The drain emptied the gauge on the first tick and ended the long
    // fart; the held control then charges again from zero.
    assert!(!guy.fart_state.long_farting);
    assert_eq!(guy.fart_state.fart_pressure, 180_000);
}

#[test]
fn growl_fires_when_threshold_crossed_unheld() {
    let mut config = base_config();
    config.fart_pressure_released = 100_000;
    config.max_fart_pressure = 100_000_000;
    let level = LevelInfo::empty();
    let mut guy = Guy::spawn(1, Vec2 { x: 0, y: 5_000_000 }, &config);
    guy.fart_state.fart_pressure = 95_000;
    let mut events: Vec<Event> = Vec::new();
    update_guy(&mut guy, &level, &config, 10_000, &mut events);
    assert!(events.iter().any(|e| matches!(e, Event::Growl)));
    assert!(guy.animation.growl_progress.is_some());
}

#[test]
fn angular_speed_never_exceeds_the_maximum() {
    let mut config = base_config();
    config.angular_acceleration = 100 * SCALE;
    config.max_angular_speed = SCALE;
    let level = LevelInfo::empty();
    let mut guy = Guy::spawn(1, Vec2 { x: 0, y: 5_000_000 }, &config);
    guy.input.roll_direction = SCALE;
    let mut events: Vec<Event> = Vec::new();
    for _ in 0..100 {
        update_guy(&mut guy, &level, &config, 10_000, &mut events);
        assert!(guy.ball.w <= config.max_angular_speed);
        assert!(guy.ball.w >= -config.max_angular_speed);
    }
    assert_eq!(guy.ball.w, config.max_angular_speed);
}

#[test]
fn finish_point_contact_finishes_the_run() {
    let config = base_config();
    let mut level = LevelInfo::empty();
    level.finish_point = Vec2 { x: 0, y: 5_000_000 };
    let mut guy = Guy::spawn(1, Vec2 { x: 0, y: 5_500_000 }, &config);
    let mut events: Vec<Event> = Vec::new();
    update_guy(&mut guy, &level, &config, 10_000, &mut events);
    assert!(guy.progress.finished);
    assert!(events.iter().any(|e| matches!(e, Event::Finished)));
    assert_eq!(guy.fart_state.fart_pressure, 0);
}
