use fartball::farticle::{Farticle, update_farticle};
use fartball::guy::{CannonConfig, Config, Guy};
use fartball::physics::{butt_point, water_scan};
use fartball::tile::{Tile, TileParams};
use fartball::fx::SCALE;
use fartball::level::LevelInfo;
use fartball::surface::{Surface, SurfaceParams};
use fartball::vec2::Vec2;

fn plain_params() -> SurfaceParams {
    SurfaceParams {
        bounciness: 0,
        min_bounce_vel: 0,
        friction: 0,
        speed_friction: 0,
        rotation_friction: 0,
        stick_strength: 0,
        max_stick_force: 0,
        fallthrough_speed: 0,
        non_collidable: false,
        water: false,
        snow: false,
    }
}

fn particle(pos: Vec2, vel: Vec2, t: i64) -> Farticle {
    Farticle { size: SCALE, pos, vel, rot: 0, w: 0, t, color: 0 }
}

#[test]
fn farticle_moves_and_ages() {
    let surfaces: Vec<Surface> = Vec::new();
    let mut f = particle(
        Vec2 { x: 0, y: 0 },
        Vec2 { x: 1_000_000, y: 2_000_000 },
        1_000_000,
    );
    let alive = update_farticle(&mut f, &surfaces, 10_000);
    assert!(alive);
    assert_eq!(f.pos, Vec2 { x: 10_000, y: 20_000 });
    assert_eq!(f.t, 990_000);
}

#[test]
fn farticle_dies_when_lifetime_runs_out() {
    let surfaces: Vec<Surface> = Vec::new();
    let mut f = particle(Vec2 { x: 0, y: 0 }, Vec2 { x: 0, y: 0 }, 10_000);
    let alive = update_farticle(&mut f, &surfaces, 10_000);
    assert!(!alive);
}

#[test]
fn farticle_reflects_off_a_surface_once() {
    // A particle touching the floor while moving downward has its vertical
    // velocity flipped exactly; the horizontal component is untouched.
    let mut surfaces: Vec<Surface> = Vec::new();
    surfaces.push(Surface {
        p1: Vec2 { x: -10_000_000, y: 0 },
        p2: Vec2 { x: 10_000_000, y: 0 },
        flow: 0,
        params: plain_params(),
    });
    let mut f = particle(
        Vec2 { x: 0, y: 50 },
        Vec2 { x: 300_000, y: -1_000_000 },
        1_000_000,
    );
    // One zero-length step keeps the position within contact distance.
    let alive = update_farticle(&mut f, &surfaces, 0);
    assert!(alive);
    assert_eq!(f.vel, Vec2 { x: 300_000, y: 1_000_000 });
    // Moving away now: no second bounce.
    let alive2 = update_farticle(&mut f, &surfaces, 0);
    assert!(alive2);
    assert_eq!(f.vel, Vec2 { x: 300_000, y: 1_000_000 });
}

#[test]
fn water_classification_samples_the_butt_point() {
    // The water test samples a point 0.9 radii behind the ball along its
    // rotation, not the center: a ball sitting just above a water tile is
    // "in water" only through that offset point.
    let config = Config {
        gravity: 10 * SCALE,
        angular_acceleration: SCALE,
        max_angular_speed: 4 * SCALE,
        guy_radius: 500_000,
        guy_mass: SCALE,
        max_penetration: 1_000_000,
        fart_pressure_released: SCALE,
        max_fart_pressure: 2 * SCALE,
        fart_continuation_pressure_speed: SCALE,
        force_fart_pressure_multiplier: SCALE,
        fart_continued_force: SCALE,
        fart_strength: SCALE,
        growl_time: SCALE,
        bubble_time: SCALE,
        bubble_target_speed: SCALE,
        bubble_acceleration: SCALE,
        stick_force_fadeout_speed: SCALE,
        snow_falloff_impulse_min: 0,
        snow_falloff_impulse_max: SCALE,
        max_snow_layer: SCALE,
        cannon: CannonConfig { activate_distance: SCALE, shoot_time: SCALE, strength: SCALE },
        portal_size: SCALE,
    };
    let mut level = LevelInfo::empty();
    level.tiles.push(Tile {
        a: Vec2 { x: -5_000_000, y: -5_000_000 },
        b: Vec2 { x: 5_000_000, y: -5_000_000 },
        c: Vec2 { x: 0, y: 100_000 },
        flow: Vec2 { x: 0, y: 0 },
        params: TileParams {
            friction: 0,
            friction_along_flow: 0,
            additional_force: Vec2 { x: 0, y: 0 },
            time_scale: None,
            water: true,
        },
    });
    // Upright ball at y = 0.5: the butt point is at (0, 0.05), inside the
    // water tile, while the center is not.
    let guy = Guy::spawn(1, Vec2 { x: 0, y: 500_000 }, &config);
    let butt = butt_point(&guy);
    assert_eq!(butt, Vec2 { x: 0, y: 50_000 });
    assert!(water_scan(&level, butt));
    assert!(!water_scan(&level, guy.ball.pos));
}

#[test]
fn progress_is_the_arc_fraction_at_the_nearest_point() {
    let mut level = LevelInfo::empty();
    level.max_progress_distance = 2_000_000;
    level.expected_path.push(vec![
        Vec2 { x: 0, y: 0 },
        Vec2 { x: 10_000_000, y: 0 },
    ]);
    // Halfway along the path, one unit above it.
    let p = level.progress_at(Vec2 { x: 5_000_000, y: 1_000_000 });
    assert_eq!(p, Some(500_000));
    // A quarter of the way.
    let q = level.progress_at(Vec2 { x: 2_500_000, y: -1_000_000 });
    assert_eq!(q, Some(250_000));
}

#[test]
fn progress_needs_proximity() {
    let mut level = LevelInfo::empty();
    level.max_progress_distance = 2_000_000;
    level.expected_path.push(vec![
        Vec2 { x: 0, y: 0 },
        Vec2 { x: 10_000_000, y: 0 },
    ]);
    let far = level.progress_at(Vec2 { x: 5_000_000, y: 3_000_000 });
    assert_eq!(far, None);
}

#[test]
fn progress_spans_multiple_polylines() {
    let mut level = LevelInfo::empty();
    level.max_progress_distance = 2_000_000;
    level.expected_path.push(vec![Vec2 { x: 0, y: 0 }, Vec2 { x: 10_000_000, y: 0 }]);
    level.expected_path.push(vec![
        Vec2 { x: 10_000_000, y: 0 },
        Vec2 { x: 10_000_000, y: 10_000_000 },
    ]);
    // Near the middle of the second polyline: three quarters of the whole.
    let p = level.progress_at(Vec2 { x: 10_500_000, y: 5_000_000 });
    assert_eq!(p, Some(750_000));
}
