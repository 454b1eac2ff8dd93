use fartball::fx::{FX_BOUND, SCALE, fx_add, fx_div, fx_mul, fx_sub, isqrt_u128};
use fartball::surface::{Surface, SurfaceParams};
use fartball::tile::{Tile, TileParams};
use fartball::vec2::Vec2;

fn plain_params() -> SurfaceParams {
    SurfaceParams {
        bounciness: 0,
        min_bounce_vel: 0,
        friction: 0,
        speed_friction: 0,
        rotation_friction: 0,
        stick_strength: 0,
        max_stick_force: 0,
        fallthrough_speed: 0,
        non_collidable: false,
        water: false,
        snow: false,
    }
}

fn floor_segment(x1: i64, x2: i64, y: i64) -> Surface {
    Surface { p1: Vec2 { x: x1, y }, p2: Vec2 { x: x2, y }, flow: 0, params: plain_params() }
}

#[test]
fn fixed_point_arithmetic_is_exact() {
    assert_eq!(fx_mul(2 * SCALE, 3 * SCALE), 6 * SCALE);
    assert_eq!(fx_mul(-2 * SCALE, 3 * SCALE), -6 * SCALE);
    assert_eq!(fx_div(6 * SCALE, 3 * SCALE), 2 * SCALE);
    assert_eq!(fx_div(1, 0), 0);
    assert_eq!(fx_add(FX_BOUND, FX_BOUND), FX_BOUND);
    assert_eq!(fx_sub(-FX_BOUND, FX_BOUND), -FX_BOUND);
    assert_eq!(fx_mul(500_000, 500_000), 250_000);
}

#[test]
fn integer_square_root_is_floor() {
    assert_eq!(isqrt_u128(0), 0);
    assert_eq!(isqrt_u128(1), 1);
    assert_eq!(isqrt_u128(2), 1);
    assert_eq!(isqrt_u128(4), 2);
    assert_eq!(isqrt_u128(999_999), 999);
    assert_eq!(isqrt_u128(1_000_000), 1000);
    assert_eq!(isqrt_u128(25_000_000_000_000), 5_000_000);
}

#[test]
fn vector_from_interior_projection() {
    // Point straight above the middle of a flat segment.
    let s = floor_segment(0, 10_000_000, 0);
    let v = s.vector_from(Vec2 { x: 5_000_000, y: 3_000_000 });
    assert_eq!(v, Vec2 { x: 0, y: -3_000_000 });
    assert_eq!(v.len(), 3_000_000);
}

#[test]
fn vector_from_beyond_endpoint_is_exact() {
    // A 3-4-5 triangle against the left endpoint.
    let s = floor_segment(0, 10_000_000, 0);
    let v = s.vector_from(Vec2 { x: -4_000_000, y: 3_000_000 });
    assert_eq!(v, Vec2 { x: 4_000_000, y: -3_000_000 });
    assert_eq!(v.len(), 5_000_000);
}

#[test]
fn vector_from_on_segment_is_zero() {
    let s = floor_segment(0, 10_000_000, 0);
    let v = s.vector_from(Vec2 { x: 5_000_000, y: 0 });
    assert_eq!(v, Vec2 { x: 0, y: 0 });
    assert_eq!(v.len(), 0);
}

#[test]
fn vector_from_at_endpoint_is_zero() {
    let s = floor_segment(0, 10_000_000, 0);
    let v = s.vector_from(Vec2 { x: 10_000_000, y: 0 });
    assert_eq!(v.len(), 0);
}

#[test]
fn vector_from_diagonal_segment() {
    // Segment from (0,0) to (6,8); point at (6,8) scaled down sits on it.
    let s = Surface {
        p1: Vec2 { x: 0, y: 0 },
        p2: Vec2 { x: 6_000_000, y: 8_000_000 },
        flow: 0,
        params: plain_params(),
    };
    let v = s.vector_from(Vec2 { x: 3_000_000, y: 4_000_000 });
    assert_eq!(v.len(), 0);
}

#[test]
fn tile_contains_interior_and_not_exterior() {
    let t = Tile {
        a: Vec2 { x: 0, y: 0 },
        b: Vec2 { x: 4_000_000, y: 0 },
        c: Vec2 { x: 0, y: 4_000_000 },
        flow: Vec2 { x: 0, y: 0 },
        params: TileParams {
            friction: 0,
            friction_along_flow: 0,
            additional_force: Vec2 { x: 0, y: 0 },
            time_scale: None,
            water: false,
        },
    };
    assert!(t.contains(Vec2 { x: 1_000_000, y: 1_000_000 }));
    assert!(!t.contains(Vec2 { x: 3_000_000, y: 3_000_000 }));
    // Boundary points count as inside.
    assert!(t.contains(Vec2 { x: 0, y: 0 }));
    assert!(t.contains(Vec2 { x: 2_000_000, y: 0 }));
}

#[test]
fn within_compares_true_euclidean_distance() {
    let a = Vec2 { x: 0, y: 0 };
    let b = Vec2 { x: 3_000_000, y: 4_000_000 };
    // Distance is exactly five units.
    assert!(!a.within(b, 5_000_000));
    assert!(a.within(b, 5_000_001));
}

#[test]
fn trig_is_exact_at_zero() {
    assert_eq!(fartball::trig::cos_fx(0), SCALE);
    assert_eq!(fartball::trig::sin_fx(0), 0);
    let v = Vec2 { x: SCALE, y: 0 }.rotate_by(fartball::trig::cos_fx(0), fartball::trig::sin_fx(0));
    assert_eq!(v, Vec2 { x: SCALE, y: 0 });
}
