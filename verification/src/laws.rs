//! Laws of the collision engine on a flat floor.
//!
//! On an exactly horizontal surface the nearest-point computation and the
//! contact normal come out with no rounding at all, so the resolution step
//! can be pinned down exactly: resolving a collision removes the penetration
//! entirely (it never grows), and an avatar at rest on such a floor is
//! returned to exact rest by a full tick.

use vstd::prelude::*;
use crate::collision::{contact_normal, is_candidate, penetration, resolve_spec};
use crate::fx::{
    SCALE, abs_i, clip, fx_div_spec, fx_mul_spec, in_range, lemma_fx_div_zero, lemma_fx_mul_neg,
    lemma_fx_mul_zero, lemma_fx_unit, lemma_sqrt_square, lemma_tdiv_mul_cancel, sqrt_floor, tdiv,
};
use crate::guy::{Config, Guy};
use crate::surface::{
    GEOM_BOUND, Surface, foot_spec, proj_clamped, proj_raw, seg_dx, seg_dy, seg_len_sq,
    vector_from_spec,
};
use crate::vec2::{Vec2, len_spec, norm_sq, normalize_spec};
use vstd::arithmetic::mul::{
    lemma_mul_is_associative, lemma_mul_is_commutative, lemma_mul_nonnegative,
    lemma_mul_strictly_positive, lemma_mul_unary_negation, lemma_mul_inequality,
};

verus! {

/// An exactly horizontal floor, oriented so its outward side faces up.
pub open spec fn flat_floor(s: Surface) -> bool {
    s.p1.y == s.p2.y && s.p1.x < s.p2.x
}

/// A point straight above the span of the floor, penetrating but above the
/// surface line.
pub open spec fn above_floor(s: Surface, p: Vec2) -> bool {
    s.p1.x <= p.x <= s.p2.x && s.p1.y < p.y
}

/// On a flat floor the nearest point is the vertical projection, exactly.
pub proof fn lemma_flat_vector_from(s: Surface, p: Vec2)
    requires
        s.wf(),
        flat_floor(s),
        above_floor(s, p),
        p.y - s.p1.y <= GEOM_BOUND as int,
        in_range(p.x as int),
    ensures
        foot_spec(s, p) == (Vec2 { x: p.x, y: s.p1.y }),
        vector_from_spec(s, p) == (Vec2 { x: 0i64, y: (s.p1.y - p.y) as i64 }),
        len_spec(vector_from_spec(s, p)) == p.y - s.p1.y,
{
    let dx = seg_dx(s);
    let l = seg_len_sq(s);
    let w = p.x - s.p1.x;
    assert(seg_dy(s) == 0);
    assert(l == dx * dx + 0 * 0);
    assert(0 * 0 == 0) by (nonlinear_arith);
    lemma_mul_strictly_positive(dx, dx);
    assert(proj_raw(s, p) == w * dx + (p.y - s.p1.y) * 0);
    assert((p.y - s.p1.y) * 0 == 0) by (nonlinear_arith);
    lemma_mul_nonnegative(w, dx);
    lemma_mul_inequality(w, dx, dx);
    lemma_mul_is_commutative(w, dx);
    lemma_mul_is_commutative(dx, dx);
    assert(0 <= proj_raw(s, p) <= l);
    assert(proj_clamped(s, p) == w * dx);
    lemma_mul_is_associative(w, dx, dx);
    assert((w * dx) * dx == w * (dx * dx));
    lemma_tdiv_mul_cancel(w, dx * dx);
    assert(tdiv(proj_clamped(s, p) * dx, l) == w);
    assert((w * dx) * 0 == 0) by (nonlinear_arith);
    assert(tdiv(0, l) == 0) by {
        vstd::arithmetic::div_mod::lemma_div_of0(abs_i(l));
    }
    assert(foot_spec(s, p).x == p.x);
    assert(foot_spec(s, p).y == s.p1.y);
    let d = p.y - s.p1.y;
    assert(0 < d <= GEOM_BOUND as int);
    assert(vector_from_spec(s, p).x as int == clip(p.x - p.x));
    assert(vector_from_spec(s, p).y as int == clip(s.p1.y - p.y));
    assert(clip(s.p1.y - p.y) == s.p1.y - p.y);
    let v = vector_from_spec(s, p);
    assert(norm_sq(v) == 0 * 0 + (-d) * (-d));
    lemma_mul_unary_negation(d, -d);
    lemma_mul_unary_negation(d, d);
    assert((-d) * (-d) == d * d);
    lemma_sqrt_square(d as nat);
    assert(norm_sq(v) == d * d);
    assert(sqrt_floor(norm_sq(v) as nat) == d);
    assert(len_spec(v) == clip(d));
}

/// On a flat floor the contact normal is exactly the upward unit vector.
pub proof fn lemma_flat_normal(s: Surface, g: Guy)
    requires
        s.wf(),
        g.wf(),
        flat_floor(s),
        above_floor(s, g.ball.pos),
        g.ball.pos.y - s.p1.y <= GEOM_BOUND as int,
    ensures
        contact_normal(s, g) == (Vec2 { x: 0i64, y: SCALE }),
        penetration(s, g) == g.ball.radius - (g.ball.pos.y - s.p1.y),
{
    lemma_flat_vector_from(s, g.ball.pos);
    let v = vector_from_spec(s, g.ball.pos);
    let d = g.ball.pos.y - s.p1.y;
    assert(len_spec(v) == d);
    let nv = normalize_spec(v);
    lemma_fx_div_zero(d);
    assert(nv.x as int == 0);
    assert(v.y as int == -d);
    assert(fx_div_spec(-d, d) == clip(tdiv(-d * SCALE, d)));
    lemma_mul_unary_negation(d, SCALE as int);
    lemma_tdiv_mul_cancel(-(SCALE as int), d);
    lemma_mul_is_commutative(-(SCALE as int), d);
    assert(-d * SCALE == -(SCALE as int) * d);
    assert(tdiv(-d * SCALE, d) == -(SCALE as int));
    assert(nv.y as int == clip(-(SCALE as int)));
}

/// Resolving a collision with a flat floor removes the penetration entirely:
/// it never increases tick over tick against a stationary surface.
pub proof fn lemma_flat_resolution_removes_penetration(s: Surface, g: Guy, cfg: Config, dt: int)
    requires
        s.wf(),
        g.wf(),
        cfg.wf(),
        flat_floor(s),
        above_floor(s, g.ball.pos),
        g.ball.pos.y - s.p1.y <= GEOM_BOUND as int,
        g.ball.radius <= GEOM_BOUND as int,
        penetration(s, g) >= 0,
    ensures
        above_floor(s, resolve_spec(g, s, cfg, dt).0.ball.pos),
        penetration(s, resolve_spec(g, s, cfg, dt).0) == 0,
        penetration(s, resolve_spec(g, s, cfg, dt).0) <= penetration(s, g),
{
    lemma_flat_normal(s, g);
    let pen = penetration(s, g);
    let normal = contact_normal(s, g);
    let g2 = resolve_spec(g, s, cfg, dt).0;
    lemma_fx_mul_zero(pen);
    lemma_fx_unit(pen);
    lemma_mul_is_commutative(SCALE as int, pen);
    assert(fx_mul_spec(normal.x as int, pen) == 0);
    assert(fx_mul_spec(normal.y as int, pen) == pen);
    assert(g2.ball.pos.x as int == clip(g.ball.pos.x + 0));
    assert(g2.ball.pos.y as int == clip(g.ball.pos.y + pen));
    assert(g.ball.pos.y + pen == s.p1.y + g.ball.radius);
    assert(clip(g.ball.pos.y + pen) == g.ball.pos.y + pen);
    assert(g2.ball.pos.y == s.p1.y + g.ball.radius);
    assert(g2.ball.pos.x == g.ball.pos.x);
    assert(g2.ball.radius == g.ball.radius);
    lemma_flat_vector_from(s, g2.ball.pos);
    assert(len_spec(vector_from_spec(s, g2.ball.pos)) == g.ball.radius);
}

/// A configuration and floor for perfectly inelastic resting contact: no
/// bounce, no friction decay, no stickiness, no snow, no pass-through.
pub open spec fn inelastic_floor(s: Surface) -> bool {
    &&& flat_floor(s)
    &&& s.params.bounciness == 0
    &&& s.params.min_bounce_vel == 0
    &&& s.params.friction == 0
    &&& s.params.speed_friction == 0
    &&& s.params.rotation_friction == 0
    &&& s.params.stick_strength == 0
    &&& s.params.fallthrough_speed <= 0
    &&& !s.params.non_collidable
    &&& !s.params.snow
    &&& s.flow == 0
}

/// An avatar exactly at rest on the floor: touching, motionless, idle, with
/// no transient state pending.
pub open spec fn at_rest_on(g: Guy, s: Surface) -> bool {
    &&& g.ball.pos.y == s.p1.y + g.ball.radius
    &&& s.p1.x <= g.ball.pos.x <= s.p2.x
    &&& g.ball.vel == (Vec2 { x: 0i64, y: 0i64 })
    &&& g.ball.w == 0
    &&& g.stick_force == (Vec2 { x: 0i64, y: 0i64 })
    &&& g.snow_layer == 0
    &&& g.bubble_timer is None
    &&& g.cannon_timer is None
    &&& !g.progress.finished
    &&& !g.fart_state.long_farting
    &&& g.animation.growl_progress is None
    &&& g.input.roll_direction == 0
    &&& !g.input.force_fart
}

/// Resting contact is stable: with zero bounciness and positive gravity, a
/// full tick returns an avatar at rest on a flat floor to exactly the same
/// place with exactly zero velocity — gravity pulls it in, the collision
/// resolution pushes it back out and cancels the fall.  Only the pressure
/// gauge (charging with time) changes.
pub proof fn lemma_resting_contact_stable(g: Guy, s: Surface, finish: Vec2, cfg: Config, dt: int)
    requires
        g.wf(),
        s.wf(),
        cfg.wf(),
        inelastic_floor(s),
        at_rest_on(g, s),
        g.ball.radius <= GEOM_BOUND as int,
        cfg.guy_mass == SCALE,
        0 < dt && in_range(dt),
        crate::collision::EPS < fx_mul_spec(cfg.gravity as int, dt),
        crate::collision::EPS < fx_mul_spec(fx_mul_spec(cfg.gravity as int, dt), dt),
        fx_mul_spec(fx_mul_spec(cfg.gravity as int, dt), dt) < g.ball.radius,
        fx_mul_spec(fx_mul_spec(cfg.gravity as int, dt), dt) < cfg.max_penetration,
        g.fart_state.fart_pressure + dt < cfg.fart_pressure_released,
        crate::vec2::dist_sq(g.ball.pos, finish) >= crate::physics::TRIGGER_RADIUS as int
            * crate::physics::TRIGGER_RADIUS as int,
    ensures
        crate::physics::tick_spec(
            g,
            seq![s],
            Seq::empty(),
            Seq::empty(),
            Seq::empty(),
            Seq::empty(),
            finish,
            cfg,
            dt,
        ) == (Guy {
            fart_state: crate::guy::FartState {
                fart_pressure: clip(g.fart_state.fart_pressure + dt) as i64,
                long_farting: false,
            },
            ..g
        }),
{
    reveal(crate::physics::tick_spec);
    let tiles = Seq::<crate::tile::Tile>::empty();
    let objects = Seq::<crate::level::Object>::empty();
    let cannons = Seq::<crate::level::Cannon>::empty();
    let portals = Seq::<crate::level::Portal>::empty();
    let k = fx_mul_spec(cfg.gravity as int, dt);
    let p2 = fx_mul_spec(k, dt);
    let y0 = s.p1.y as int;
    let m = crate::guy::mass_spec(g, cfg);
    assert(m == SCALE as int);

    assert(crate::physics::dt_dilated(tiles, g.ball.pos, dt, 0) == dt);

    let g1 = crate::physics::triggers_spec(g, finish, objects, cfg);
    assert(g1 == g);

    let g2 = crate::physics::bubble_spec(g1, objects, cfg, dt);
    assert(g2 == g);

    let c = crate::physics::cannon_spec(g2, cannons, cfg, dt);
    assert(crate::physics::capture_index(cannons, g.ball.pos, cfg.cannon.activate_distance as int, 0)
        is None);
    assert(c == (g2, false));

    let g4 = crate::physics::angular_spec(g2, cfg, dt);
    assert(g4 == g) by {
        lemma_fx_mul_zero(cfg.angular_acceleration as int);
        lemma_fx_div_zero(m);
        lemma_fx_mul_zero(dt);
        assert(crate::fx::clamp_i(g.input.roll_direction as int, -(SCALE as int), SCALE as int)
            == 0);
    }

    let g5 = crate::physics::gravity_spec(g4, cfg, dt);
    assert(in_range(k) && k > 0);
    assert(g5.ball.vel == (Vec2 { x: 0i64, y: (-k) as i64 }));
    assert(g5 == (Guy { ball: crate::guy::Ball { vel: g5.ball.vel, ..g.ball }, ..g }));

    let f = crate::physics::tile_forces(tiles, g5.ball.pos, m, dt, g5.ball.vel, g5.ball.w as int, 0);
    assert(f == (g5.ball.vel, g5.ball.w as int));
    let g6 = Guy { ball: crate::guy::Ball { vel: f.0, w: f.1 as i64, ..g5.ball }, ..g5 };
    assert(g6 == g5);

    let fa = crate::physics::fart_spec(g6, cfg, dt);
    let charged = crate::guy::FartState {
        fart_pressure: clip(g.fart_state.fart_pressure + dt) as i64,
        long_farting: false,
    };
    assert(clip(g.fart_state.fart_pressure + dt) == g.fart_state.fart_pressure + dt);
    assert(charged.fart_pressure < cfg.fart_pressure_released);
    let g7 = Guy { fart_state: charged, ..g6 };
    assert(fa == (g7, false, false));

    let g8 = crate::physics::growl_spec(g7, cfg, dt);
    assert(g8 == g7);

    let g9 = crate::physics::stick_spec(g8, cfg, dt);
    assert(g9 == g8) by {
        lemma_fx_div_zero(m);
        lemma_fx_mul_zero(dt);
        crate::fx::lemma_fx_mul_nonneg(cfg.stick_force_fadeout_speed as int, dt);
        assert(crate::vec2::div_scalar_spec(g8.stick_force, m) == (Vec2 { x: 0i64, y: 0i64 }));
        assert(crate::vec2::scale_spec(Vec2 { x: 0i64, y: 0i64 }, dt) == (Vec2 {
            x: 0i64,
            y: 0i64,
        }));
        assert(norm_sq(Vec2 { x: 0i64, y: 0i64 }) == 0) by (nonlinear_arith);
        assert(crate::fx::sqrt_floor(0nat) == 0);
        assert(len_spec(Vec2 { x: 0i64, y: 0i64 }) == 0);
        assert(crate::vec2::clamp_len_spec(
            g8.stick_force,
            fx_mul_spec(cfg.stick_force_fadeout_speed as int, dt),
        ) == g8.stick_force);
        assert(crate::vec2::add_spec(g8.ball.vel, Vec2 { x: 0i64, y: 0i64 }) == g8.ball.vel);
        assert(crate::vec2::sub_spec(g8.stick_force, g8.stick_force) == (Vec2 {
            x: 0i64,
            y: 0i64,
        }));
    }

    let g10 = crate::physics::integrate_spec(g9, dt);
    assert(g10.ball.pos == (Vec2 { x: g.ball.pos.x, y: (y0 + g.ball.radius - p2) as i64 })) by {
        lemma_fx_mul_zero(dt);
        lemma_fx_mul_neg(k, dt);
        assert(crate::vec2::scale_spec(g9.ball.vel, dt) == (Vec2 { x: 0i64, y: (-p2) as i64 }));
        assert(clip(g.ball.pos.x + 0) == g.ball.pos.x);
        assert(clip(g.ball.pos.y + (-p2)) == y0 + g.ball.radius - p2);
    }
    assert(g10.ball.rot == g.ball.rot) by {
        lemma_fx_mul_zero(dt);
    }
    assert(g10 == (Guy {
        ball: crate::guy::Ball { pos: g10.ball.pos, vel: g9.ball.vel, ..g.ball },
        fart_state: charged,
        ..g
    }));

    assert(above_floor(s, g10.ball.pos));
    assert(g10.ball.pos.y - y0 == g.ball.radius - p2);
    lemma_flat_normal(s, g10);
    let pen = penetration(s, g10);
    assert(pen == p2);
    let normal = contact_normal(s, g10);
    let nv = crate::vec2::dot_spec(normal, g10.ball.vel);
    assert(nv == -k) by {
        assert(normal.x as int * g10.ball.vel.x as int == 0) by (nonlinear_arith)
            requires
                normal.x as int == 0,
        ;
        lemma_mul_unary_negation(SCALE as int, k);
        lemma_mul_is_commutative(SCALE as int, k);
        lemma_mul_is_commutative(-k, SCALE as int);
        assert(normal.y as int * g10.ball.vel.y as int == -k * SCALE);
        lemma_tdiv_mul_cancel(-k, SCALE as int);
        assert(tdiv(0 + -k * SCALE, SCALE as int) == -k);
    }
    assert(is_candidate(s, g10, cfg)) by {
        assert(crate::collision::outward_side(s, g10)) by {
            lemma_mul_strictly_positive(seg_dx(s), SCALE as int);
            assert(seg_dy(s) * (normal.x as int) == 0) by (nonlinear_arith)
                requires
                    normal.x as int == 0,
            ;
        }
    }
    assert(crate::collision::best_candidate(seq![s], g10, cfg, 1) == Option::Some(0usize)) by {
        assert(crate::collision::best_candidate(seq![s], g10, cfg, 0) is None);
        assert(seq![s][0] == s);
    }

    let res = resolve_spec(g10, s, cfg, dt);
    let g11 = res.0;
    assert(g11 == (Guy {
        ball: crate::guy::Ball { pos: g.ball.pos, ..g.ball },
        fart_state: charged,
        ..g
    })) by {
        let tangent = Vec2 { x: (-(normal.y as int)) as i64, y: normal.x };
        assert(tangent == (Vec2 { x: (-(SCALE as int)) as i64, y: 0i64 }));
        lemma_fx_mul_zero(g.ball.radius as int);
        assert(fx_mul_spec(g10.ball.w as int, g10.ball.radius as int) == 0);
        let tdot = crate::vec2::dot_spec(tangent, g10.ball.vel);
        assert(tdot == 0) by {
            assert(tangent.x as int * g10.ball.vel.x as int == 0) by (nonlinear_arith)
                requires
                    g10.ball.vel.x as int == 0,
            ;
            assert(tangent.y as int * g10.ball.vel.y as int == 0) by (nonlinear_arith)
                requires
                    tangent.y as int == 0,
            ;
            vstd::arithmetic::div_mod::lemma_div_of0(SCALE as int);
        }
        let tv = clip(clip(tdot - 0) + 0);
        assert(tv == 0);
        let bounce = fx_mul_spec(-nv, clip(SCALE as int + 0));
        lemma_fx_unit(k);
        assert(bounce == k);
        let impulse = crate::fx::max_i(bounce, clip(-nv + 0));
        assert(impulse == k);
        lemma_fx_mul_zero(k);
        assert(crate::vec2::scale_spec(normal, impulse) == (Vec2 { x: 0i64, y: k as i64 }));
        lemma_fx_div_zero(m);
        assert(crate::vec2::div_scalar_spec(Vec2 { x: 0i64, y: k as i64 }, m) == (Vec2 {
            x: 0i64,
            y: k as i64,
        }));
        assert(crate::vec2::add_spec(g10.ball.vel, Vec2 { x: 0i64, y: k as i64 }) == (Vec2 {
            x: 0i64,
            y: 0i64,
        }));
        lemma_fx_mul_zero(abs_i(nv));
        assert(fx_mul_spec(abs_i(nv), s.params.friction as int) == 0) by {
            assert(abs_i(nv) * 0 == 0) by (nonlinear_arith);
            vstd::arithmetic::div_mod::lemma_div_of0(SCALE as int);
        }
        let fi = -crate::fx::clamp_i(tv, 0, 0);
        assert(fi == 0);
        lemma_fx_unit(pen);
        lemma_mul_is_commutative(SCALE as int, pen);
        assert(crate::vec2::scale_spec(normal, pen) == (Vec2 { x: 0i64, y: pen as i64 })) by {
            lemma_fx_mul_zero(pen);
        }
        assert(crate::vec2::add_spec(g10.ball.pos, Vec2 { x: 0i64, y: pen as i64 }) == g.ball.pos)
            by {
            assert(clip(g10.ball.pos.x + 0) == g.ball.pos.x);
            assert(g10.ball.pos.y + pen == g.ball.pos.y);
        }
        lemma_fx_mul_zero(dt);
        assert(crate::vec2::scale_spec(tangent, 0) == (Vec2 { x: 0i64, y: 0i64 })) by {
            lemma_fx_mul_zero(tangent.x as int);
            lemma_fx_mul_zero(tangent.y as int);
        }
        lemma_fx_div_zero(g.ball.radius as int);
        assert(crate::vec2::div_scalar_spec(Vec2 { x: 0i64, y: 0i64 }, m) == (Vec2 {
            x: 0i64,
            y: 0i64,
        }));
        assert(crate::vec2::add_spec(Vec2 { x: 0i64, y: 0i64 }, Vec2 { x: 0i64, y: 0i64 }) == (
        Vec2 { x: 0i64, y: 0i64 }));
        assert(crate::fx::min_i(fx_mul_spec(dt, 0), SCALE as int) == 0);
        assert(crate::vec2::scale_spec(Vec2 { x: 0i64, y: 0i64 }, 0) == (Vec2 {
            x: 0i64,
            y: 0i64,
        })) by {
            lemma_fx_mul_zero(0);
        }
        assert(crate::vec2::sub_spec(Vec2 { x: 0i64, y: 0i64 }, Vec2 { x: 0i64, y: 0i64 }) == (
        Vec2 { x: 0i64, y: 0i64 }));
        lemma_fx_mul_zero(nv);
        assert(crate::fx::clamp_i(0, -(s.params.max_stick_force as int),
            s.params.max_stick_force as int) == 0);
        assert(crate::vec2::scale_spec(normal, 0) == (Vec2 { x: 0i64, y: 0i64 })) by {
            lemma_fx_mul_zero(normal.x as int);
            lemma_fx_mul_zero(normal.y as int);
        }
        assert(norm_sq(Vec2 { x: 0i64, y: 0i64 }) == 0) by (nonlinear_arith);
        assert(len_spec(Vec2 { x: 0i64, y: 0i64 }) == 0);
        let ft = crate::fx::clamp_i(
            fx_div_spec(
                clip(abs_i(k) - cfg.snow_falloff_impulse_min),
                clip(cfg.snow_falloff_impulse_max - cfg.snow_falloff_impulse_min),
            ),
            0,
            SCALE as int,
        );
        crate::fx::lemma_fx_mul_nonneg(ft, cfg.max_snow_layer as int);
        assert(crate::fx::min_i(fx_mul_spec(ft, cfg.max_snow_layer as int), 0) == 0);
        assert(crate::fx::clamp_i(clip(0 - 0), 0, cfg.max_snow_layer as int) == 0);
    }

    assert(crate::physics::portal_hit(portals, g.ball.pos, g11.ball.pos, cfg.portal_size as int, 0)
        is None);
    let g12 = crate::physics::portal_spec(g11, portals, g.ball.pos, cfg.portal_size as int);
    assert(g12 == g11);
    assert(g12 == (Guy { fart_state: charged, ..g }));
}

} // verus!
