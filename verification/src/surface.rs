//! Oriented line-segment level boundaries.
//!
//! A surface runs from `p1` to `p2`; its interior side is the one where the
//! two-dimensional cross product of `p2 - p1` with the outward normal is
//! positive, and collisions only register against that outward side.  The
//! central query is `vector_from`: the shortest vector from a point to the
//! segment, clamped to the endpoints.

use vstd::prelude::*;
use crate::fx::{abs_i, clamp_i, clip, in_range, tdiv, tdiv128};
use crate::vec2::{Vec2, sub_spec, vec_in_range};
use vstd::arithmetic::mul::{
    lemma_mul_nonnegative, lemma_mul_upper_bound, lemma_mul_unary_negation,
    lemma_mul_strictly_positive, lemma_mul_is_commutative,
};
use vstd::arithmetic::div_mod::{lemma_div_is_ordered, lemma_div_multiples_vanish};

verus! {

/// Largest coordinate magnitude of level geometry (two million units): keeps
/// every intermediate of the nearest-point computation well inside 128 bits.
pub const GEOM_BOUND: i64 = 2_000_000_000_000;

pub open spec fn geom_in_range(v: Vec2) -> bool {
    -(GEOM_BOUND as int) <= v.x <= GEOM_BOUND as int && -(GEOM_BOUND as int) <= v.y
        <= GEOM_BOUND as int
}

/// Material behaviour of a surface, resolved once at load time (no per-tick
/// string lookups).
#[derive(Clone, Copy, PartialEq, Eq, Structural, Debug)]
pub struct SurfaceParams {
    /// Fraction of the approach speed returned by a bounce.
    pub bounciness: i64,
    /// Floor on the separation speed after a bounce.
    pub min_bounce_vel: i64,
    /// Cap of the friction impulse as a fraction of the normal impulse.
    pub friction: i64,
    /// Per-second decay of linear speed while in contact.
    pub speed_friction: i64,
    /// Per-second decay of angular speed while in contact.
    pub rotation_friction: i64,
    /// Stick force recorded per unit of impact speed.
    pub stick_strength: i64,
    /// Cap on the recorded stick force.
    pub max_stick_force: i64,
    /// Approach speeds at or above this pass through; negative means no cap.
    pub fallthrough_speed: i64,
    /// Touching never resolves a collision (visual or trigger-only surface).
    pub non_collidable: bool,
    /// Touching counts as water contact (splash trigger).
    pub water: bool,
    /// Impacts shed accumulated snow.
    pub snow: bool,
}

impl SurfaceParams {
    pub open spec fn wf(self) -> bool {
        &&& 0 <= self.bounciness <= crate::fx::SCALE as int
        &&& 0 <= self.min_bounce_vel && in_range(self.min_bounce_vel as int)
        &&& 0 <= self.friction && in_range(self.friction as int)
        &&& 0 <= self.speed_friction && in_range(self.speed_friction as int)
        &&& 0 <= self.rotation_friction && in_range(self.rotation_friction as int)
        &&& 0 <= self.stick_strength && in_range(self.stick_strength as int)
        &&& 0 <= self.max_stick_force && in_range(self.max_stick_force as int)
        &&& in_range(self.fallthrough_speed as int)
    }
}

#[derive(Clone, Copy, PartialEq, Eq, Structural, Debug)]
pub struct Surface {
    pub p1: Vec2,
    pub p2: Vec2,
    /// Ambient tangential flow carried by the surface (a conveyor term).
    pub flow: i64,
    pub params: SurfaceParams,
}

pub open spec fn seg_dx(s: Surface) -> int {
    s.p2.x - s.p1.x
}

pub open spec fn seg_dy(s: Surface) -> int {
    s.p2.y - s.p1.y
}

/// Raw squared length of the segment.
pub open spec fn seg_len_sq(s: Surface) -> int {
    seg_dx(s) * seg_dx(s) + seg_dy(s) * seg_dy(s)
}

/// Raw projection of `p - p1` onto the segment direction; the nearest point
/// of the full line sits at parameter `proj_raw / seg_len_sq`.
pub open spec fn proj_raw(s: Surface, p: Vec2) -> int {
    (p.x - s.p1.x) * seg_dx(s) + (p.y - s.p1.y) * seg_dy(s)
}

/// The projection clamped to the segment: parameter in `[0, seg_len_sq]`.
pub open spec fn proj_clamped(s: Surface, p: Vec2) -> int {
    clamp_i(proj_raw(s, p), 0, seg_len_sq(s))
}

/// The nearest point of the segment to `p`, rounded toward `p1` in each
/// coordinate; exact at the endpoints.
pub open spec fn foot_spec(s: Surface, p: Vec2) -> Vec2 {
    Vec2 {
        x: (s.p1.x + tdiv(proj_clamped(s, p) * seg_dx(s), seg_len_sq(s))) as i64,
        y: (s.p1.y + tdiv(proj_clamped(s, p) * seg_dy(s), seg_len_sq(s))) as i64,
    }
}

/// Shortest vector from `p` to the segment.
pub open spec fn vector_from_spec(s: Surface, p: Vec2) -> Vec2 {
    sub_spec(foot_spec(s, p), p)
}

/// Squared distance, scaled by `seg_len_sq(s)^2`, from `p` to the segment
/// point with parameter `t / seg_len_sq(s)`.
pub open spec fn scaled_dsq(s: Surface, p: Vec2, t: int) -> int {
    let l = seg_len_sq(s);
    let ax = l * (p.x - s.p1.x) - t * seg_dx(s);
    let ay = l * (p.y - s.p1.y) - t * seg_dy(s);
    ax * ax + ay * ay
}

impl Surface {
    pub open spec fn wf(self) -> bool {
        &&& geom_in_range(self.p1)
        &&& geom_in_range(self.p2)
        &&& !(self.p1 == self.p2)
        &&& in_range(self.flow as int)
        &&& self.params.wf()
    }

    /// The shortest vector from `point` to the nearest point of the segment
    /// (clamped to the endpoints); negated it serves as the contact normal.
    pub fn vector_from(&self, point: Vec2) -> (r: Vec2)
        requires
            self.wf(),
            point.wf(),
        ensures
            r == vector_from_spec(*self, point),
            r.wf(),
    {
        let s = *self;
        let wx: i128 = point.x as i128 - s.p1.x as i128;
        let wy: i128 = point.y as i128 - s.p1.y as i128;
        let dx: i128 = s.p2.x as i128 - s.p1.x as i128;
        let dy: i128 = s.p2.y as i128 - s.p1.y as i128;
        proof {
            lemma_abs_le_mul(dx as int, 4_000_000_000_000, dx as int, 4_000_000_000_000);
            lemma_abs_le_mul(dy as int, 4_000_000_000_000, dy as int, 4_000_000_000_000);
            lemma_abs_le_mul(
                wx as int,
                0x8000000000000000000,
                dx as int,
                4_000_000_000_000,
            );
            lemma_abs_le_mul(
                wy as int,
                0x8000000000000000000,
                dy as int,
                4_000_000_000_000,
            );
            lemma_seg_len_sq_pos(s);
        }
        let l: i128 = dx * dx + dy * dy;
        let u: i128 = wx * dx + wy * dy;
        let tc: i128 = if u < 0 {
            0
        } else if u > l {
            l
        } else {
            u
        };
        proof {
            lemma_abs_le_mul(tc as int, 32_000_000_000_000_000_000_000_000, dx as int,
                4_000_000_000_000);
            lemma_abs_le_mul(tc as int, 32_000_000_000_000_000_000_000_000, dy as int,
                4_000_000_000_000);
        }
        let px: i128 = tc * dx;
        let py: i128 = tc * dy;
        let ox: i128 = tdiv128(px, l);
        let oy: i128 = tdiv128(py, l);
        proof {
            lemma_tdiv_scaled_bound(tc as int, dx as int, l as int);
            lemma_tdiv_scaled_bound(tc as int, dy as int, l as int);
        }
        let fx_: i64 = (s.p1.x as i128 + ox) as i64;
        let fy_: i64 = (s.p1.y as i128 + oy) as i64;
        let foot = Vec2 { x: fx_, y: fy_ };
        foot.sub(point)
    }
}

/// The nearest-point parameter chosen by `vector_from` minimises the squared
/// distance to `p` over the whole segment: for every parameter `t` of the
/// segment (at denominator `seg_len_sq`), the clamped projection is at least
/// as close.  Lengths therefore measure the true Euclidean distance to the
/// segment, for points off, beside, or beyond it.
pub proof fn lemma_vector_from_nearest(s: Surface, p: Vec2, t: int)
    requires
        !(s.p1 == s.p2),
        0 <= t <= seg_len_sq(s),
    ensures
        scaled_dsq(s, p, proj_clamped(s, p)) <= scaled_dsq(s, p, t),
{
    let l = seg_len_sq(s);
    let u = proj_raw(s, p);
    let tc = proj_clamped(s, p);
    let wx = p.x - s.p1.x;
    let wy = p.y - s.p1.y;
    let dx = seg_dx(s);
    let dy = seg_dy(s);
    lemma_seg_len_sq_pos(s);
    let g_t = scaled_dsq(s, p, t);
    let g_c = scaled_dsq(s, p, tc);
    lemma_dsq_expand(wx, wy, dx, dy, l, u, t);
    lemma_dsq_expand(wx, wy, dx, dy, l, u, tc);
    let sq = (l * wx) * (l * wx) + (l * wy) * (l * wy);
    assert(g_t == sq - 2 * ((l * t) * u) + (t * t) * l);
    assert(g_c == sq - 2 * ((l * tc) * u) + (tc * tc) * l);
    assert(g_t - g_c == l * ((t - tc) * (t + tc - 2 * u))) by (nonlinear_arith)
        requires
            g_t == sq - 2 * ((l * t) * u) + (t * t) * l,
            g_c == sq - 2 * ((l * tc) * u) + (tc * tc) * l,
    ;
    if u < 0 {
        assert(tc == 0);
        lemma_mul_nonnegative(t, t + tc - 2 * u);
        lemma_mul_nonnegative(l, (t - tc) * (t + tc - 2 * u));
    } else if u > l {
        assert(tc == l);
        lemma_mul_nonnegative(tc - t, 2 * u - t - tc);
        lemma_mul_unary_negation(t - tc, 2 * u - t - tc);
        lemma_mul_unary_negation(t - tc, t + tc - 2 * u);
        assert((t - tc) * (t + tc - 2 * u) == (tc - t) * (2 * u - t - tc)) by (nonlinear_arith);
        lemma_mul_nonnegative(l, (t - tc) * (t + tc - 2 * u));
    } else {
        assert(tc == u);
        assert((t - tc) * (t + tc - 2 * u) == (t - u) * (t - u)) by (nonlinear_arith)
            requires
                tc == u,
        ;
        lemma_sq_nonneg_local(t - u);
        lemma_mul_nonnegative(l, (t - tc) * (t + tc - 2 * u));
    }
}

/// Expansion of one scaled squared distance into the quadratic in `t`.
proof fn lemma_dsq_expand(wx: int, wy: int, dx: int, dy: int, l: int, u: int, t: int)
    requires
        l == dx * dx + dy * dy,
        u == wx * dx + wy * dy,
    ensures
        (l * wx - t * dx) * (l * wx - t * dx) + (l * wy - t * dy) * (l * wy - t * dy) == (l
            * wx) * (l * wx) + (l * wy) * (l * wy) - 2 * ((l * t) * u) + (t * t) * l,
{
    let ax = l * wx;
    let ay = l * wy;
    let px = t * dx;
    let py = t * dy;
    assert((ax - px) * (ax - px) == ax * ax - 2 * (ax * px) + px * px) by (nonlinear_arith);
    assert((ay - py) * (ay - py) == ay * ay - 2 * (ay * py) + py * py) by (nonlinear_arith);
    assert(ax * px == (l * t) * (wx * dx)) by (nonlinear_arith)
        requires
            ax == l * wx,
            px == t * dx,
    ;
    assert(ay * py == (l * t) * (wy * dy)) by (nonlinear_arith)
        requires
            ay == l * wy,
            py == t * dy,
    ;
    vstd::arithmetic::mul::lemma_mul_is_distributive_add(l * t, wx * dx, wy * dy);
    assert(px * px == (t * t) * (dx * dx)) by (nonlinear_arith)
        requires
            px == t * dx,
    ;
    assert(py * py == (t * t) * (dy * dy)) by (nonlinear_arith)
        requires
            py == t * dy,
    ;
    vstd::arithmetic::mul::lemma_mul_is_distributive_add(t * t, dx * dx, dy * dy);
}

/// Beyond the ends of the segment the nearest point is the endpoint itself,
/// with no rounding at all.
pub proof fn lemma_vector_from_endpoints(s: Surface, p: Vec2)
    requires
        !(s.p1 == s.p2),
    ensures
        proj_raw(s, p) <= 0 ==> foot_spec(s, p) == s.p1,
        proj_raw(s, p) >= seg_len_sq(s) ==> foot_spec(s, p) == s.p2,
{
    let l = seg_len_sq(s);
    let u = proj_raw(s, p);
    let dx = seg_dx(s);
    let dy = seg_dy(s);
    lemma_seg_len_sq_pos(s);
    if u <= 0 {
        assert(proj_clamped(s, p) == 0);
        lemma_tdiv_exact_multiple(0, dx, l);
        lemma_tdiv_exact_multiple(0, dy, l);
        assert(foot_spec(s, p) == s.p1);
    } else if u >= l {
        assert(proj_clamped(s, p) == l);
        lemma_tdiv_exact_multiple(1, dx, l);
        lemma_tdiv_exact_multiple(1, dy, l);
        assert(foot_spec(s, p).x == s.p2.x);
        assert(foot_spec(s, p).y == s.p2.y);
        assert(foot_spec(s, p) == s.p2);
    }
}

/// `tdiv(k * l * d, l) == k * d` for `k` in `{0, 1}`: multiples of the
/// denominator divide exactly.
proof fn lemma_tdiv_exact_multiple(k: int, d: int, l: int)
    requires
        l >= 1,
        k == 0 || k == 1,
    ensures
        tdiv(k * l * d, l) == k * d,
{
    if k == 0 {
        assert(k * l == 0) by (nonlinear_arith)
            requires
                k == 0,
        ;
        assert(k * l * d == 0) by (nonlinear_arith)
            requires
                k * l == 0,
        ;
        assert(abs_i(0) / abs_i(l) == 0) by {
            vstd::arithmetic::div_mod::lemma_div_of0(l);
        }
    } else {
        assert(k * l * d == l * d) by (nonlinear_arith)
            requires
                k == 1,
        ;
        crate::fx::lemma_abs_mul(l, d);
        assert(abs_i(l) == l);
        lemma_mul_is_commutative(l, abs_i(d));
        lemma_div_multiples_vanish(abs_i(d), l);
        assert(abs_i(l * d) / abs_i(l) == abs_i(d));
        if d >= 0 {
            assert(tdiv(l * d, l) == abs_i(d));
        } else {
            lemma_mul_strictly_positive(l, -d);
            lemma_mul_unary_negation(l, d);
            assert(l * d < 0);
            assert(tdiv(l * d, l) == -abs_i(d));
        }
    }
}

proof fn lemma_sq_nonneg_local(a: int)
    ensures
        a * a >= 0,
{
    if a >= 0 {
        lemma_mul_nonnegative(a, a);
    } else {
        lemma_mul_nonnegative(-a, -a);
        lemma_mul_unary_negation(a, -a);
        lemma_mul_unary_negation(a, a);
    }
}

/// `|a| <= ca` and `|b| <= cb` bound the product by `ca * cb`.
proof fn lemma_abs_le_mul(a: int, ca: int, b: int, cb: int)
    requires
        abs_i(a) <= ca,
        abs_i(b) <= cb,
    ensures
        abs_i(a * b) <= ca * cb,
        -(ca * cb) <= a * b <= ca * cb,
{
    crate::fx::lemma_abs_mul(a, b);
    lemma_mul_upper_bound(abs_i(a), ca, abs_i(b), cb);
    lemma_mul_nonnegative(abs_i(a), abs_i(b));
}

/// A segment with distinct endpoints has positive squared length.
pub proof fn lemma_seg_len_sq_pos(s: Surface)
    requires
        !(s.p1 == s.p2),
    ensures
        seg_len_sq(s) >= 1,
{
    let dx = seg_dx(s);
    let dy = seg_dy(s);
    if dx != 0 {
        assert(dx * dx >= 1) by (nonlinear_arith)
            requires
                dx != 0,
        ;
        assert(dy * dy >= 0) by (nonlinear_arith);
    } else {
        assert(dy != 0);
        assert(dy * dy >= 1) by (nonlinear_arith)
            requires
                dy != 0,
        ;
        assert(dx * dx >= 0) by (nonlinear_arith);
    }
}

/// `|tdiv(t * d, l)| <= |d|` whenever `0 <= t <= l`: the rounded foot offset
/// never leaves the segment's bounding box.
proof fn lemma_tdiv_scaled_bound(t: int, d: int, l: int)
    requires
        0 <= t <= l,
        l >= 1,
    ensures
        abs_i(tdiv(t * d, l)) <= abs_i(d),
        tdiv(t * d, l) == if t * d >= 0 {
            (t * d) / l
        } else {
            -((-(t * d)) / l)
        },
{
    crate::fx::lemma_abs_mul(t, d);
    assert(abs_i(t) == t);
    lemma_mul_upper_bound(t, l, abs_i(d), abs_i(d));
    lemma_mul_nonnegative(t, abs_i(d));
    lemma_div_is_ordered(t * abs_i(d), l * abs_i(d), l);
    lemma_div_multiples_vanish(abs_i(d), l);
    assert(abs_i(t * d) / l <= abs_i(d));
    assert(abs_i(l) == l);
}

} // verus!
