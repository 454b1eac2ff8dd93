//! Two-dimensional fixed-point vectors.
//!
//! Components are fixed-point scalars (see [`crate::fx`]).  Squared lengths
//! and dot products are computed in 128-bit intermediates, so the stated
//! formulas are exact; lengths are floor square roots of the raw squared
//! norm, which is the true Euclidean length of the integer vector.

use vstd::prelude::*;
use crate::fx::{
    FX_BOUND, SCALE, abs_i, clip, clip128, fx_add, fx_div, fx_div_spec, fx_mul, fx_mul_spec,
    fx_sub, in_range, isqrt_u128, sqrt_floor, tdiv, tdiv128,
};
use vstd::arithmetic::mul::{lemma_mul_nonnegative, lemma_mul_upper_bound};

verus! {

#[derive(Clone, Copy, PartialEq, Eq, Structural, Debug)]
pub struct Vec2 {
    pub x: i64,
    pub y: i64,
}

pub open spec fn vec_in_range(v: Vec2) -> bool {
    in_range(v.x as int) && in_range(v.y as int)
}

/// Raw squared Euclidean norm, in squared raw steps (not rescaled).
pub open spec fn norm_sq(v: Vec2) -> int {
    v.x as int * v.x as int + v.y as int * v.y as int
}

/// Raw squared distance between two points.
pub open spec fn dist_sq(a: Vec2, b: Vec2) -> int {
    (a.x - b.x) * (a.x - b.x) + (a.y - b.y) * (a.y - b.y)
}

/// Length of a vector: floor square root of the raw squared norm.
pub open spec fn len_spec(v: Vec2) -> int {
    clip(sqrt_floor(norm_sq(v) as nat) as int)
}

pub open spec fn add_spec(a: Vec2, b: Vec2) -> Vec2 {
    Vec2 { x: clip(a.x + b.x) as i64, y: clip(a.y + b.y) as i64 }
}

pub open spec fn sub_spec(a: Vec2, b: Vec2) -> Vec2 {
    Vec2 { x: clip(a.x - b.x) as i64, y: clip(a.y - b.y) as i64 }
}

pub open spec fn neg_spec(a: Vec2) -> Vec2 {
    Vec2 { x: -a.x as i64, y: -a.y as i64 }
}

pub open spec fn scale_spec(a: Vec2, k: int) -> Vec2 {
    Vec2 { x: fx_mul_spec(a.x as int, k) as i64, y: fx_mul_spec(a.y as int, k) as i64 }
}

/// Dot product of two fixed-point vectors, rescaled into fixed point.
pub open spec fn dot_spec(a: Vec2, b: Vec2) -> int {
    clip(tdiv(a.x * b.x + a.y * b.y, SCALE as int))
}

/// Two-dimensional cross product ("skew"), rescaled into fixed point.
pub open spec fn skew_spec(a: Vec2, b: Vec2) -> int {
    clip(tdiv(a.x * b.y - a.y * b.x, SCALE as int))
}

/// `v` divided by its length: the zero vector stays zero.
pub open spec fn normalize_spec(v: Vec2) -> Vec2 {
    let l = len_spec(v);
    Vec2 {
        x: fx_div_spec(v.x as int, l) as i64,
        y: fx_div_spec(v.y as int, l) as i64,
    }
}

/// `v` shortened to length at most `m` (direction kept); degenerate vectors
/// are left alone.
pub open spec fn clamp_len_spec(v: Vec2, m: int) -> Vec2 {
    if len_spec(v) <= m {
        v
    } else {
        scale_spec(v, fx_div_spec(m, len_spec(v)))
    }
}

impl Vec2 {
    pub open spec fn wf(self) -> bool {
        vec_in_range(self)
    }

    pub fn new(x: i64, y: i64) -> (r: Vec2)
        requires
            in_range(x as int),
            in_range(y as int),
    ensures
            r == (Vec2 { x, y }),
            r.wf(),
    {
        Vec2 { x, y }
    }

    pub fn zero() -> (r: Vec2)
        ensures
            r == (Vec2 { x: 0i64, y: 0i64 }),
            r.wf(),
    {
        Vec2 { x: 0, y: 0 }
    }

    pub fn add(self, o: Vec2) -> (r: Vec2)
        requires
            self.wf(),
            o.wf(),
        ensures
            r == add_spec(self, o),
            r.wf(),
    {
        Vec2 { x: fx_add(self.x, o.x), y: fx_add(self.y, o.y) }
    }

    pub fn sub(self, o: Vec2) -> (r: Vec2)
        requires
            self.wf(),
            o.wf(),
        ensures
            r == sub_spec(self, o),
            r.wf(),
    {
        Vec2 { x: fx_sub(self.x, o.x), y: fx_sub(self.y, o.y) }
    }

    pub fn neg(self) -> (r: Vec2)
        requires
            self.wf(),
        ensures
            r == neg_spec(self),
            r.wf(),
    {
        Vec2 { x: -self.x, y: -self.y }
    }

    pub fn scale(self, k: i64) -> (r: Vec2)
        requires
            self.wf(),
            in_range(k as int),
        ensures
            r == scale_spec(self, k as int),
            r.wf(),
    {
        Vec2 { x: fx_mul(self.x, k), y: fx_mul(self.y, k) }
    }

    pub fn dot(self, o: Vec2) -> (r: i64)
        requires
            self.wf(),
            o.wf(),
        ensures
            r as int == dot_spec(self, o),
            in_range(r as int),
    {
        proof {
            lemma_prod_bound(self.x as int, o.x as int);
            lemma_prod_bound(self.y as int, o.y as int);
        }
        let p: i128 = (self.x as i128) * (o.x as i128) + (self.y as i128) * (o.y as i128);
        let q: i128 = tdiv128(p, SCALE as i128);
        clip128(q)
    }

    pub fn skew(self, o: Vec2) -> (r: i64)
        requires
            self.wf(),
            o.wf(),
        ensures
            r as int == skew_spec(self, o),
            in_range(r as int),
    {
        proof {
            lemma_prod_bound(self.x as int, o.y as int);
            lemma_prod_bound(self.y as int, o.x as int);
        }
        let p: i128 = (self.x as i128) * (o.y as i128) - (self.y as i128) * (o.x as i128);
        let q: i128 = tdiv128(p, SCALE as i128);
        clip128(q)
    }

    /// Raw squared norm in a wide intermediate (exact, no rescaling).
    pub fn norm_sq_raw(self) -> (r: i128)
        requires
            self.wf(),
        ensures
            r as int == norm_sq(self),
            0 <= r < 0x40000000000000000000000000000000,
    {
        proof {
            lemma_prod_bound(self.x as int, self.x as int);
            lemma_prod_bound(self.y as int, self.y as int);
            lemma_sq_nonneg(self.x as int);
            lemma_sq_nonneg(self.y as int);
        }
        (self.x as i128) * (self.x as i128) + (self.y as i128) * (self.y as i128)
    }

    pub fn len(self) -> (r: i64)
        requires
            self.wf(),
        ensures
            r as int == len_spec(self),
            in_range(r as int),
            r >= 0,
    {
        let sq: i128 = self.norm_sq_raw();
        let root: u128 = isqrt_u128(sq as u128);
        clip128(root as i128)
    }

    /// Squared-distance comparison against a threshold, exact: true iff the
    /// Euclidean distance between the points is below `t`.
    pub fn within(self, o: Vec2, t: i64) -> (r: bool)
        requires
            self.wf(),
            o.wf(),
            t >= 0,
            in_range(t as int),
        ensures
            r <==> dist_sq(self, o) < t * t,
    {
        let d = self.sub(o);
        proof {
            lemma_prod_bound(t as int, t as int);
            lemma_within_clip(self, o, t as int);
        }
        let sq: i128 = d.norm_sq_raw();
        sq < (t as i128) * (t as i128)
    }

    pub fn normalize_or_zero(self) -> (r: Vec2)
        requires
            self.wf(),
        ensures
            r == normalize_spec(self),
            r.wf(),
    {
        let l = self.len();
        Vec2 { x: fx_div(self.x, l), y: fx_div(self.y, l) }
    }

    pub fn clamp_len(self, m: i64) -> (r: Vec2)
        requires
            self.wf(),
            in_range(m as int),
            m >= 0,
        ensures
            r == clamp_len_spec(self, m as int),
            r.wf(),
    {
        let l = self.len();
        if l <= m {
            self
        } else {
            self.scale(fx_div(m, l))
        }
    }

    /// Per-component division by a scalar (zero divides to zero).
    pub fn div_scalar(self, k: i64) -> (r: Vec2)
        requires
            self.wf(),
            in_range(k as int),
        ensures
            r == div_scalar_spec(self, k as int),
            r.wf(),
    {
        Vec2 { x: fx_div(self.x, k), y: fx_div(self.y, k) }
    }

    /// Rotation by an angle given through its cosine and sine.
    pub fn rotate_by(self, c: i64, s: i64) -> (r: Vec2)
        requires
            self.wf(),
            in_range(c as int),
            in_range(s as int),
        ensures
            r == rotate_by_spec(self, c as int, s as int),
            r.wf(),
    {
        let xc = fx_mul(self.x, c);
        let ys = fx_mul(self.y, s);
        let xs = fx_mul(self.x, s);
        let yc = fx_mul(self.y, c);
        Vec2 { x: fx_sub(xc, ys), y: fx_add(xs, yc) }
    }

    /// Quarter turn counter-clockwise.
    pub fn rotate_90(self) -> (r: Vec2)
        requires
            self.wf(),
        ensures
            r == (Vec2 { x: -self.y as i64, y: self.x }),
            r.wf(),
    {
        Vec2 { x: -self.y, y: self.x }
    }
}

pub open spec fn div_scalar_spec(v: Vec2, k: int) -> Vec2 {
    Vec2 { x: fx_div_spec(v.x as int, k) as i64, y: fx_div_spec(v.y as int, k) as i64 }
}

pub open spec fn rotate_by_spec(v: Vec2, c: int, s: int) -> Vec2 {
    Vec2 {
        x: clip(fx_mul_spec(v.x as int, c) - fx_mul_spec(v.y as int, s)) as i64,
        y: clip(fx_mul_spec(v.x as int, s) + fx_mul_spec(v.y as int, c)) as i64,
    }
}

/// A product of in-range values fits far inside 128 bits.
proof fn lemma_prod_bound(a: int, b: int)
    requires
        in_range(a),
        in_range(b),
    ensures
        abs_i(a * b) <= 0x10000000000000000000000000000000,
        abs_i(a * b) <= FX_BOUND as int * FX_BOUND as int,
{
    crate::fx::lemma_abs_mul(a, b);
    lemma_mul_upper_bound(abs_i(a), FX_BOUND as int, abs_i(b), FX_BOUND as int);
    lemma_mul_nonnegative(abs_i(a), abs_i(b));
    assert(FX_BOUND as int * FX_BOUND as int <= 0x10000000000000000000000000000000)
        by (nonlinear_arith);
}

proof fn lemma_sq_nonneg(a: int)
    ensures
        a * a >= 0,
{
    if a >= 0 {
        lemma_mul_nonnegative(a, a);
    } else {
        lemma_mul_nonnegative(-a, -a);
        vstd::arithmetic::mul::lemma_mul_unary_negation(a, -a);
        vstd::arithmetic::mul::lemma_mul_unary_negation(a, a);
    }
}

/// The exec distance test uses clipped coordinate differences; when a
/// difference does not fit, both the clipped and the true squared distance
/// are at or beyond any representable threshold, so the test agrees either
/// way.
proof fn lemma_within_clip(a: Vec2, b: Vec2, t: int)
    requires
        vec_in_range(a),
        vec_in_range(b),
        0 <= t <= FX_BOUND as int,
    ensures
        dist_sq(a, b) < t * t <==> norm_sq(sub_spec(a, b)) < t * t,
{
    let dx = a.x as int - b.x as int;
    let dy = a.y as int - b.y as int;
    let c = FX_BOUND as int;
    lemma_sq_nonneg(dx);
    lemma_sq_nonneg(dy);
    lemma_sq_nonneg(clip(dx));
    lemma_sq_nonneg(clip(dy));
    if in_range(dx) && in_range(dy) {
        assert(clip(dx) == dx && clip(dy) == dy);
    } else {
        lemma_abs_sq_mono(t, c);
        if !in_range(dx) {
            assert(abs_i(clip(dx)) == c);
            lemma_abs_sq_mono(c, dx);
            assert(clip(dx) * clip(dx) == c * c) by (nonlinear_arith)
                requires
                    abs_i(clip(dx)) == c,
                    abs_i(clip(dx)) == if clip(dx) < 0 { -clip(dx) } else { clip(dx) },
            ;
            assert(dist_sq(a, b) >= c * c);
            assert(norm_sq(sub_spec(a, b)) >= c * c);
        } else {
            assert(abs_i(clip(dy)) == c);
            lemma_abs_sq_mono(c, dy);
            assert(clip(dy) * clip(dy) == c * c) by (nonlinear_arith)
                requires
                    abs_i(clip(dy)) == c,
                    abs_i(clip(dy)) == if clip(dy) < 0 { -clip(dy) } else { clip(dy) },
            ;
            assert(dist_sq(a, b) >= c * c);
            assert(norm_sq(sub_spec(a, b)) >= c * c);
        }
    }
}

/// Squares grow with absolute value.
proof fn lemma_abs_sq_mono(a: int, b: int)
    requires
        abs_i(a) <= abs_i(b),
    ensures
        a * a <= b * b,
{
    assert(a * a <= b * b) by (nonlinear_arith)
        requires
            abs_i(a) <= abs_i(b),
            abs_i(a) == if a < 0 { -a } else { a },
            abs_i(b) == if b < 0 { -b } else { b },
    ;
}

} // verus!
