//! Collision candidate selection and impulse-based resolution.
//!
//! Each tick at most one surface collision is resolved: among all valid
//! candidates (penetrating, collidable, approached from the outward side,
//! below the fallthrough-speed ceiling and the penetration cap) the one with
//! the greatest penetration wins; later surfaces win ties, as the level order
//! has it.

use vstd::prelude::*;
use crate::fx::{
    SCALE, abs_i, clamp_i, clip, fx_abs, fx_add, fx_clamp, fx_div, fx_div_spec, fx_max, fx_min,
    fx_mul, fx_mul_spec, fx_sub, in_range, max_i, min_i,
};
use crate::guy::{Config, Guy};
use crate::surface::{Surface, seg_dx, seg_dy, vector_from_spec};
use crate::vec2::{
    Vec2, add_spec, dot_spec, len_spec, neg_spec, normalize_spec, scale_spec, sub_spec,
    vec_in_range,
};

verus! {

/// Penetrations and approach speeds below this are noise, not contact.
pub const EPS: i64 = 100;

/// Splash speeds at or below this stay silent.
pub const SPLASH_SPEED: i64 = 500_000;

/// Shortest vector from the avatar's center to the surface.
pub open spec fn coll_vec(s: Surface, g: Guy) -> Vec2 {
    vector_from_spec(s, g.ball.pos)
}

/// Penetration depth of the avatar into the surface.
pub open spec fn penetration(s: Surface, g: Guy) -> int {
    g.ball.radius - len_spec(coll_vec(s, g))
}

/// Inward contact normal: away from the surface, toward the center.
pub open spec fn contact_normal(s: Surface, g: Guy) -> Vec2 {
    neg_spec(normalize_spec(coll_vec(s, g)))
}

/// The avatar sits on the surface's outward-facing side: the raw cross
/// product of the segment direction with the normal is positive.
pub open spec fn outward_side(s: Surface, g: Guy) -> bool {
    seg_dx(s) * (contact_normal(s, g).y as int) - seg_dy(s) * (contact_normal(s, g).x as int) > 0
}

/// A surface is a collision candidate for this tick.
pub open spec fn is_candidate(s: Surface, g: Guy, cfg: Config) -> bool {
    let nv = dot_spec(contact_normal(s, g), g.ball.vel);
    &&& penetration(s, g) > EPS as int
    &&& !s.params.non_collidable
    &&& nv < -(EPS as int)
    &&& (s.params.fallthrough_speed <= 0 || nv > -(s.params.fallthrough_speed as int))
    &&& outward_side(s, g)
    &&& penetration(s, g) < cfg.max_penetration as int
}

/// Index of the deepest candidate among the first `n` surfaces; later
/// surfaces win ties.
pub open spec fn best_candidate(surfaces: Seq<Surface>, g: Guy, cfg: Config, n: int) -> Option<usize>
    decreases n,
{
    if n <= 0 {
        Option::None
    } else {
        let prev = best_candidate(surfaces, g, cfg, n - 1);
        if is_candidate(surfaces[n - 1], g, cfg) && (match prev {
            Option::Some(p) => penetration(surfaces[n - 1], g) >= penetration(surfaces[p as int], g),
            Option::None => true,
        }) {
            Option::Some((n - 1) as usize)
        } else {
            prev
        }
    }
}

/// The selection picks a valid candidate of maximal penetration: no other
/// candidate penetrates deeper, and when no candidate exists nothing is
/// selected.
pub proof fn lemma_best_candidate(surfaces: Seq<Surface>, g: Guy, cfg: Config, n: int)
    requires
        0 <= n <= surfaces.len(),
        surfaces.len() <= usize::MAX,
    ensures
        match best_candidate(surfaces, g, cfg, n) {
            Option::Some(c) => {
                &&& 0 <= c < n
                &&& is_candidate(surfaces[c as int], g, cfg)
                &&& forall|j: int|
                    0 <= j < n && is_candidate(surfaces[j], g, cfg) ==> penetration(surfaces[j], g)
                        <= penetration(surfaces[c as int], g)
            },
            Option::None => forall|j: int| 0 <= j < n ==> !is_candidate(surfaces[j], g, cfg),
        },
    decreases n,
{
    if n > 0 {
        lemma_best_candidate(surfaces, g, cfg, n - 1);
        let prev = best_candidate(surfaces, g, cfg, n - 1);
        let cur = best_candidate(surfaces, g, cfg, n);
        if is_candidate(surfaces[n - 1], g, cfg) && (match prev {
            Option::Some(p) => penetration(surfaces[n - 1], g) >= penetration(surfaces[p as int], g),
            Option::None => true,
        }) {
            assert(cur == Option::Some((n - 1) as usize));
            assert forall|j: int|
                0 <= j < n && is_candidate(surfaces[j], g, cfg) implies penetration(surfaces[j], g)
                <= penetration(surfaces[n - 1], g) by {
                if j < n - 1 {
                    match prev {
                        Option::Some(p) => {
                            assert(penetration(surfaces[j], g) <= penetration(
                                surfaces[p as int],
                                g,
                            ));
                        },
                        Option::None => {},
                    }
                }
            }
        } else {
            assert(cur == prev);
        }
    }
}

/// One resolved collision: the new state, the applied bounce impulse, and
/// the snow shed by the impact.
pub open spec fn resolve_spec(g: Guy, s: Surface, cfg: Config, dt: int) -> (Guy, int, int) {
    let m = crate::guy::mass_spec(g, cfg);
    let pen = penetration(s, g);
    let normal = contact_normal(s, g);
    let nv = dot_spec(normal, g.ball.vel);
    let tangent = Vec2 { x: (-normal.y) as i64, y: normal.x };
    let tv = clip(clip(dot_spec(tangent, g.ball.vel) - fx_mul_spec(g.ball.w as int, g.ball.radius as int))
        + s.flow);
    let bounce = fx_mul_spec(-nv, clip(SCALE as int + s.params.bounciness as int));
    let impulse = max_i(bounce, clip(-nv + s.params.min_bounce_vel as int));
    let vel1 = add_spec(
        g.ball.vel,
        crate::vec2::div_scalar_spec(scale_spec(normal, impulse), m),
    );
    let max_fi = fx_mul_spec(abs_i(nv), s.params.friction as int);
    let fi = -clamp_i(tv, -max_fi, max_fi);
    let pos1 = add_spec(g.ball.pos, scale_spec(normal, pen));
    let vel2 = add_spec(vel1, crate::vec2::div_scalar_spec(scale_spec(tangent, fi), m));
    let w1 = clip(g.ball.w - fx_div_spec(fx_div_spec(fi, g.ball.radius as int), m));
    let speed_factor = min_i(fx_mul_spec(dt, s.params.speed_friction as int), SCALE as int);
    let vel3 = sub_spec(vel2, scale_spec(vel2, speed_factor));
    let rot_factor = min_i(fx_mul_spec(dt, s.params.rotation_friction as int), SCALE as int);
    let w2 = clip(w1 - fx_mul_spec(w1, rot_factor));
    let stick_mag = clamp_i(
        fx_mul_spec(nv, s.params.stick_strength as int),
        -(s.params.max_stick_force as int),
        s.params.max_stick_force as int,
    );
    let stick_cand = scale_spec(normal, stick_mag);
    let stick1 = if len_spec(stick_cand) >= len_spec(g.stick_force) {
        stick_cand
    } else {
        g.stick_force
    };
    let snow1 = if s.params.snow {
        clip(g.snow_layer + fx_mul_spec(fx_mul_spec(abs_i(w2), dt), 10_000))
    } else {
        g.snow_layer as int
    };
    let falloff_t = clamp_i(
        fx_div_spec(
            clip(abs_i(bounce) - cfg.snow_falloff_impulse_min),
            clip(cfg.snow_falloff_impulse_max - cfg.snow_falloff_impulse_min),
        ),
        0,
        SCALE as int,
    );
    let falloff = min_i(fx_mul_spec(falloff_t, cfg.max_snow_layer as int), snow1);
    let snow2 = clamp_i(clip(snow1 - falloff), 0, cfg.max_snow_layer as int);
    (
        Guy {
            bubble_timer: Option::None,
            ball: crate::guy::Ball { pos: pos1, vel: vel3, w: w2 as i64, ..g.ball },
            stick_force: stick1,
            snow_layer: snow2 as i64,
            ..g
        },
        impulse,
        falloff,
    )
}

/// Resolve one collision against `s` exactly as `resolve_spec` states.
pub fn resolve_collision(g: Guy, s: &Surface, config: &Config, dt: i64) -> (r: (Guy, i64, i64))
    requires
        g.wf(),
        s.wf(),
        config.wf(),
        0 <= dt,
        in_range(dt as int),
    ensures
        (r.0, r.1 as int, r.2 as int) == resolve_spec(g, *s, *config, dt as int),
        r.0.wf(),
{
    let m = g.mass(config);
    let v = s.vector_from(g.ball.pos);
    let lv = v.len();
    let pen = fx_sub(g.ball.radius, lv);
    let normal = v.normalize_or_zero().neg();
    let nv = normal.dot(g.ball.vel);
    let tangent = normal.rotate_90();
    let tv = fx_add(fx_sub(tangent.dot(g.ball.vel), fx_mul(g.ball.w, g.ball.radius)), s.flow);
    let bounce = fx_mul(-nv, fx_add(SCALE, s.params.bounciness));
    let impulse = fx_max(bounce, fx_add(-nv, s.params.min_bounce_vel));
    let mut g1 = g;
    g1.bubble_timer = Option::None;
    g1.ball.vel = g.ball.vel.add(normal.scale(impulse).div_scalar(m));
    let max_fi = fx_mul(fx_abs(nv), s.params.friction);
    proof {
        crate::fx::lemma_fx_mul_nonneg(abs_i(nv as int), s.params.friction as int);
    }
    let fi = -fx_clamp(tv, -max_fi, max_fi);
    g1.ball.pos = g.ball.pos.add(normal.scale(pen));
    g1.ball.vel = g1.ball.vel.add(tangent.scale(fi).div_scalar(m));
    g1.ball.w = fx_sub(g.ball.w, fx_div(fx_div(fi, g.ball.radius), m));
    let speed_factor = fx_min(fx_mul(dt, s.params.speed_friction), SCALE);
    g1.ball.vel = g1.ball.vel.sub(g1.ball.vel.scale(speed_factor));
    let rot_factor = fx_min(fx_mul(dt, s.params.rotation_friction), SCALE);
    g1.ball.w = fx_sub(g1.ball.w, fx_mul(g1.ball.w, rot_factor));
    let stick_mag = fx_clamp(
        fx_mul(nv, s.params.stick_strength),
        -s.params.max_stick_force,
        s.params.max_stick_force,
    );
    let stick_cand = normal.scale(stick_mag);
    if stick_cand.len() >= g.stick_force.len() {
        g1.stick_force = stick_cand;
    }
    if s.params.snow {
        g1.snow_layer = fx_add(g.snow_layer, fx_mul(fx_mul(fx_abs(g1.ball.w), dt), 10_000));
    }
    proof {
        crate::fx::lemma_fx_mul_nonneg(abs_i(g1.ball.w as int), dt as int);
        crate::fx::lemma_fx_mul_nonneg(
            fx_mul_spec(abs_i(g1.ball.w as int), dt as int),
            10_000,
        );
    }
    let falloff_t = fx_clamp(
        fx_div(
            fx_sub(fx_abs(bounce), config.snow_falloff_impulse_min),
            fx_sub(config.snow_falloff_impulse_max, config.snow_falloff_impulse_min),
        ),
        0,
        SCALE,
    );
    proof {
        crate::fx::lemma_fx_mul_nonneg(falloff_t as int, config.max_snow_layer as int);
    }
    let falloff = fx_min(fx_mul(falloff_t, config.max_snow_layer), g1.snow_layer);
    g1.snow_layer = fx_clamp(fx_sub(g1.snow_layer, falloff), 0, config.max_snow_layer);
    (g1, impulse, falloff)
}

/// Whether some surface of the given kind penetrates the avatar: the
/// visual/audio trigger, independent of physical collidability.
pub open spec fn touching_water(surfaces: Seq<Surface>, pos: Vec2, radius: int) -> bool {
    exists|j: int|
        0 <= j < surfaces.len() && surfaces[j].params.water && radius - len_spec(
            vector_from_spec(surfaces[j], pos),
        ) > EPS as int
}

/// Scan for water contact at `pos`.
pub fn water_contact(surfaces: &Vec<Surface>, pos: Vec2, radius: i64) -> (r: bool)
    requires
        forall|i: int| 0 <= i < surfaces@.len() ==> #[trigger] surfaces@[i].wf(),
        vec_in_range(pos),
        in_range(radius as int),
    ensures
        r == touching_water(surfaces@, pos, radius as int),
{
    let n = surfaces.len();
    let mut i: usize = 0;
    while i < n
        invariant
            0 <= i <= n,
            n == surfaces@.len(),
            forall|k: int| 0 <= k < surfaces@.len() ==> #[trigger] surfaces@[k].wf(),
            vec_in_range(pos),
            in_range(radius as int),
            forall|j: int|
                0 <= j < i ==> !(#[trigger] surfaces@[j].params.water && radius as int - len_spec(
                    vector_from_spec(surfaces@[j], pos),
                ) > EPS as int),
        decreases n - i,
    {
        let s = &surfaces[i];
        assert(surfaces@[i as int].wf());
        if s.params.water {
            let v = s.vector_from(pos);
            let lv = v.len();
            let pen = fx_sub(radius, lv);
            if pen > EPS {
                return true;
            }
        }
        i = i + 1;
    }
    false
}

/// Scan all surfaces for the deepest valid candidate.
pub fn find_collision(surfaces: &Vec<Surface>, g: &Guy, config: &Config) -> (r: Option<usize>)
    requires
        forall|i: int| 0 <= i < surfaces@.len() ==> #[trigger] surfaces@[i].wf(),
        g.wf(),
        config.wf(),
    ensures
        r == best_candidate(surfaces@, *g, *config, surfaces@.len() as int),
        match r {
            Option::Some(c) => c < surfaces@.len(),
            Option::None => true,
        },
{
    let n = surfaces.len();
    let mut best: Option<usize> = Option::None;
    let mut best_pen: i64 = 0;
    let mut i: usize = 0;
    while i < n
        invariant
            0 <= i <= n,
            n == surfaces@.len(),
            forall|k: int| 0 <= k < surfaces@.len() ==> #[trigger] surfaces@[k].wf(),
            g.wf(),
            config.wf(),
            best == best_candidate(surfaces@, *g, *config, i as int),
            match best {
                Option::Some(c) => c < i && best_pen as int == penetration(surfaces@[c as int], *g),
                Option::None => true,
            },
        decreases n - i,
    {
        let s = &surfaces[i];
        assert(surfaces@[i as int].wf());
        let v = s.vector_from(g.ball.pos);
        let lv = v.len();
        let pen = fx_sub(g.ball.radius, lv);
        if pen > EPS && !s.params.non_collidable {
            let normal = v.normalize_or_zero().neg();
            let nv = normal.dot(g.ball.vel);
            let side = crate::tile::edge_side_exec(
                Vec2 { x: 0, y: 0 },
                Vec2 { x: s.p2.x - s.p1.x, y: s.p2.y - s.p1.y },
                normal,
            );
            if nv < -EPS && (s.params.fallthrough_speed <= 0 || nv > -s.params.fallthrough_speed)
                && side > 0 && pen < config.max_penetration {
                assert(is_candidate(surfaces@[i as int], *g, *config));
                match best {
                    Option::Some(_) => {
                        if pen >= best_pen {
                            best = Option::Some(i);
                            best_pen = pen;
                        }
                    },
                    Option::None => {
                        best = Option::Some(i);
                        best_pen = pen;
                    },
                }
            } else {
                assert(!is_candidate(surfaces@[i as int], *g, *config));
            }
        } else {
            assert(!is_candidate(surfaces@[i as int], *g, *config));
        }
        i = i + 1;
    }
    best
}

} // verus!
