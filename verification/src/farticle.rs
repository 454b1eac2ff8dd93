//! Cosmetic particles: simplified physics twins of the avatar.
//!
//! A particle moves ballistically, collides with surfaces only (never with
//! tiles), reflects off the first penetrated surface with a single bounce and
//! no friction, and dies when its lifetime runs out.

use vstd::prelude::*;
use crate::collision::EPS;
use crate::fx::{SCALE, clip, fx_add, fx_mul, fx_mul_spec, fx_sub, in_range};
use crate::surface::{Surface, vector_from_spec};
use crate::vec2::{
    Vec2, add_spec, dot_spec, len_spec, neg_spec, normalize_spec, scale_spec, sub_spec,
    vec_in_range,
};

verus! {

#[derive(Clone, Copy, PartialEq, Eq, Structural, Debug)]
pub struct Farticle {
    pub size: i64,
    pub pos: Vec2,
    pub vel: Vec2,
    pub rot: i64,
    pub w: i64,
    /// Remaining lifetime; the particle dies when it reaches zero.
    pub t: i64,
    /// Palette index for the presentation layer.
    pub color: i64,
}

impl Farticle {
    pub open spec fn wf(self) -> bool {
        &&& in_range(self.size as int)
        &&& vec_in_range(self.pos)
        &&& vec_in_range(self.vel)
        &&& in_range(self.rot as int)
        &&& in_range(self.w as int)
        &&& in_range(self.t as int)
    }
}

/// Ballistic motion and lifetime decay of one tick.
pub open spec fn farticle_move_spec(f: Farticle, dt: int) -> Farticle {
    Farticle {
        t: clip(f.t - dt) as i64,
        pos: add_spec(f.pos, scale_spec(f.vel, dt)),
        rot: clip(f.rot + fx_mul_spec(f.w as int, dt)) as i64,
        ..f
    }
}

/// Single-bounce reflection against a contact normal: the normal component
/// of the velocity is flipped, the tangential one is kept, and the particle
/// is pushed out by the penetration.
pub open spec fn farticle_bounce_spec(f: Farticle, s: Surface) -> Farticle {
    let v = vector_from_spec(s, f.pos);
    let normal = neg_spec(normalize_spec(v));
    let nv = dot_spec(normal, f.vel);
    if nv < 0 {
        Farticle {
            vel: sub_spec(f.vel, scale_spec(scale_spec(normal, 2 * SCALE as int), nv)),
            ..f
        }
    } else {
        f
    }
}

/// One tick for one particle: move, age, and bounce off the first penetrated
/// surface (its penetration measured against a point particle).  Returns
/// whether the particle is still alive.
pub fn update_farticle(f: &mut Farticle, surfaces: &Vec<Surface>, dt: i64) -> (alive: bool)
    requires
        old(f).wf(),
        forall|i: int| 0 <= i < surfaces@.len() ==> (#[trigger] surfaces@[i]).wf(),
        0 <= dt,
        in_range(dt as int),
    ensures
        final(f).wf(),
        ({
            let moved = farticle_move_spec(*old(f), dt as int);
            &&& alive == (moved.t > 0)
            &&& alive ==> *final(f) == (match point_hit(surfaces@, moved.pos, 0) {
                Option::Some(i) => farticle_bounce_spec(moved, surfaces@[i]),
                Option::None => moved,
            })
            &&& !alive ==> *final(f) == moved
        }),
{
    f.t = fx_sub(f.t, dt);
    f.pos = f.pos.add(f.vel.scale(dt));
    f.rot = fx_add(f.rot, fx_mul(f.w, dt));
    if f.t <= 0 {
        return false;
    }
    let n = surfaces.len();
    let mut i: usize = 0;
    while i < n
        invariant
            0 <= i <= n,
            n == surfaces@.len(),
            forall|k: int| 0 <= k < surfaces@.len() ==> (#[trigger] surfaces@[k]).wf(),
            f.wf(),
            *f == farticle_move_spec(*old(f), dt as int),
            f.t > 0,
            point_hit(surfaces@, f.pos, 0) == point_hit(surfaces@, f.pos, i as int),
        decreases n - i,
    {
        let s = &surfaces[i];
        assert(surfaces@[i as int].wf());
        let v = s.vector_from(f.pos);
        let lv = v.len();
        if lv < EPS {
            let normal = v.normalize_or_zero().neg();
            let nv = normal.dot(f.vel);
            if nv < 0 {
                f.vel = f.vel.sub(normal.scale(2 * SCALE).scale(nv));
            }
            return true;
        }
        i = i + 1;
    }
    true
}

/// The first surface within the contact distance of a point.
pub open spec fn point_hit(surfaces: Seq<Surface>, pos: Vec2, k: int) -> Option<int>
    decreases surfaces.len() - k,
{
    if k < 0 || k >= surfaces.len() {
        Option::None
    } else if len_spec(vector_from_spec(surfaces[k], pos)) < EPS as int {
        Option::Some(k)
    } else {
        point_hit(surfaces, pos, k + 1)
    }
}

} // verus!
