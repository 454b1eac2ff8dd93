//! Fixed-point circular functions.
//!
//! Angles are fixed-point radians.  The library *defines* its sine and cosine
//! as low-degree polynomials on an argument reduced into `(-pi, pi]`; the
//! contracts state those polynomials exactly, so rotation is a deterministic,
//! fully specified operation.  At zero the polynomials are exact: `sin 0 = 0`
//! and `cos 0 = 1`.

use vstd::prelude::*;
use crate::fx::{
    SCALE, fx_abs, fx_div, fx_div_spec, fx_mul, fx_mul_spec, fx_sub, in_range, clip,
};
use vstd::arithmetic::div_mod::{
    lemma_fundamental_div_mod, lemma_fundamental_div_mod_converse, lemma_mod_bound,
};

verus! {

/// Fixed-point pi.
pub const PI_FX: i64 = 3_141_593;

/// Fixed-point pi/2.
pub const HALF_PI_FX: i64 = 1_570_796;

/// Fixed-point 2*pi (exactly twice `PI_FX`).
pub const TWO_PI_FX: i64 = 6_283_186;

/// An angle folded into `(-PI_FX, PI_FX]`.
pub open spec fn reduce_spec(a: int) -> int {
    let m = a % (TWO_PI_FX as int);
    if m > PI_FX as int {
        m - TWO_PI_FX as int
    } else {
        m
    }
}

/// Fold an angle into `(-PI_FX, PI_FX]`.
pub fn angle_reduce(a: i64) -> (r: i64)
    requires
        in_range(a as int),
    ensures
        r as int == reduce_spec(a as int),
        -(PI_FX as int) < r <= PI_FX as int,
{
    let n: i64 = TWO_PI_FX;
    proof {
        lemma_mod_bound(a as int, n as int);
    }
    let m: i64 = if a >= 0 {
        a % n
    } else {
        let k: i64 = (-a) % n;
        proof {
            lemma_fundamental_div_mod(-(a as int), n as int);
            let q = (-(a as int)) / (n as int);
            if k == 0 {
                lemma_fundamental_div_mod_converse(a as int, n as int, -q, 0);
            } else {
                lemma_fundamental_div_mod_converse(a as int, n as int, -q - 1, n - k);
            }
        }
        if k == 0 {
            0
        } else {
            n - k
        }
    };
    if m > PI_FX {
        m - TWO_PI_FX
    } else {
        m
    }
}

/// The sine polynomial `x - x^3/6 + x^5/120` in fixed-point steps, for
/// arguments already reduced to `[-pi/2, pi/2]`.
pub open spec fn sin_poly_spec(x: int) -> int {
    let x2 = fx_mul_spec(x, x);
    let x3 = fx_mul_spec(x2, x);
    let x5 = fx_mul_spec(x3, x2);
    clip(clip(x - fx_div_spec(x3, 6 * SCALE as int)) + fx_div_spec(x5, 120 * SCALE as int))
}

/// The cosine polynomial `1 - x^2/2 + x^4/24` in fixed-point steps, for
/// arguments already reduced to `[0, pi/2]`.
pub open spec fn cos_poly_spec(x: int) -> int {
    let x2 = fx_mul_spec(x, x);
    let x4 = fx_mul_spec(x2, x2);
    clip(clip(SCALE as int - fx_div_spec(x2, 2 * SCALE as int)) + fx_div_spec(
        x4,
        24 * SCALE as int,
    ))
}

/// Library sine: the polynomial on the argument folded into a quarter wave.
pub open spec fn sin_spec(a: int) -> int {
    let x = reduce_spec(a);
    let y = if x > HALF_PI_FX as int {
        PI_FX as int - x
    } else if x < -(HALF_PI_FX as int) {
        -(PI_FX as int) - x
    } else {
        x
    };
    sin_poly_spec(y)
}

/// Library cosine: even, folded into a quarter wave with a sign flip past
/// pi/2.
pub open spec fn cos_spec(a: int) -> int {
    let x = reduce_spec(a);
    let u = if x < 0 {
        -x
    } else {
        x
    };
    if u > HALF_PI_FX as int {
        -cos_poly_spec(PI_FX as int - u)
    } else {
        cos_poly_spec(u)
    }
}

fn sin_poly(x: i64) -> (r: i64)
    requires
        -(HALF_PI_FX as int) <= x <= HALF_PI_FX as int,
    ensures
        r as int == sin_poly_spec(x as int),
        in_range(r as int),
{
    let x2 = fx_mul(x, x);
    let x3 = fx_mul(x2, x);
    let x5 = fx_mul(x3, x2);
    let a = fx_sub(x, fx_div(x3, 6 * SCALE));
    crate::fx::fx_add(a, fx_div(x5, 120 * SCALE))
}

fn cos_poly(x: i64) -> (r: i64)
    requires
        0 <= x <= PI_FX as int,
    ensures
        r as int == cos_poly_spec(x as int),
        in_range(r as int),
{
    let x2 = fx_mul(x, x);
    let x4 = fx_mul(x2, x2);
    let a = fx_sub(SCALE, fx_div(x2, 2 * SCALE));
    crate::fx::fx_add(a, fx_div(x4, 24 * SCALE))
}

pub fn sin_fx(a: i64) -> (r: i64)
    requires
        in_range(a as int),
    ensures
        r as int == sin_spec(a as int),
        in_range(r as int),
{
    let x = angle_reduce(a);
    let y: i64 = if x > HALF_PI_FX {
        PI_FX - x
    } else if x < -HALF_PI_FX {
        -PI_FX - x
    } else {
        x
    };
    sin_poly(y)
}

pub fn cos_fx(a: i64) -> (r: i64)
    requires
        in_range(a as int),
    ensures
        r as int == cos_spec(a as int),
        in_range(r as int),
{
    let x = angle_reduce(a);
    let u = fx_abs(x);
    if u > HALF_PI_FX {
        let c = cos_poly(PI_FX - u);
        -c
    } else {
        cos_poly(u)
    }
}

} // verus!
