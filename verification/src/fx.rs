//! Fixed-point scalar arithmetic.
//!
//! A value of type `i64` stands for the real number `v / 1_000_000`: one unit
//! of length is a million raw steps.  Every operation clips its result into
//! `[-FX_BOUND, FX_BOUND]`, so well-formed states stay well-formed and no
//! operation can overflow or panic.  Products and quotients round toward
//! zero, exactly as the contracts state.

use vstd::prelude::*;
use vstd::arithmetic::mul::{lemma_mul_nonnegative, lemma_mul_unary_negation};

verus! {

/// Raw steps per unit.
pub const SCALE: i64 = 1_000_000;

/// Largest magnitude a fixed-point quantity may hold (four trillion units).
pub const FX_BOUND: i64 = 4_000_000_000_000_000_000;

pub open spec fn in_range(a: int) -> bool {
    -(FX_BOUND as int) <= a <= FX_BOUND as int
}

/// Clamp an ideal result into the representable range.
pub open spec fn clip(a: int) -> int {
    if a > FX_BOUND as int {
        FX_BOUND as int
    } else if a < -(FX_BOUND as int) {
        -(FX_BOUND as int)
    } else {
        a
    }
}

pub open spec fn abs_i(a: int) -> int {
    if a < 0 {
        -a
    } else {
        a
    }
}

/// Division rounding toward zero (the rounding of all fixed-point ops).
pub open spec fn tdiv(p: int, d: int) -> int {
    let q = abs_i(p) / abs_i(d);
    if (p < 0) != (d < 0) {
        -q
    } else {
        q
    }
}

/// Ideal product of two fixed-point values, before clipping.
pub open spec fn mul_ideal(a: int, b: int) -> int {
    tdiv(a * b, SCALE as int)
}

pub open spec fn fx_mul_spec(a: int, b: int) -> int {
    clip(mul_ideal(a, b))
}

/// Ideal quotient of two fixed-point values; a zero divisor yields zero
/// (numeric degeneracies resolve to neutral values, never to errors).
pub open spec fn fx_div_spec(a: int, b: int) -> int {
    if b == 0 {
        0
    } else {
        clip(tdiv(a * (SCALE as int), b))
    }
}

pub open spec fn min_i(a: int, b: int) -> int {
    if a < b {
        a
    } else {
        b
    }
}

pub open spec fn max_i(a: int, b: int) -> int {
    if a < b {
        b
    } else {
        a
    }
}

pub open spec fn clamp_i(a: int, lo: int, hi: int) -> int {
    if a < lo {
        lo
    } else if a > hi {
        hi
    } else {
        a
    }
}

/// Runtime range test, for values that arrive from outside.
pub fn in_range_chk(a: i64) -> (r: bool)
    ensures
        r == in_range(a as int),
{
    -FX_BOUND <= a && a <= FX_BOUND
}

pub fn fx_abs(a: i64) -> (r: i64)
    requires
        in_range(a as int),
    ensures
        r as int == abs_i(a as int),
        in_range(r as int),
{
    if a < 0 {
        -a
    } else {
        a
    }
}

pub fn fx_neg(a: i64) -> (r: i64)
    requires
        in_range(a as int),
    ensures
        r as int == -(a as int),
        in_range(r as int),
{
    -a
}

pub fn fx_add(a: i64, b: i64) -> (r: i64)
    requires
        in_range(a as int),
        in_range(b as int),
    ensures
        r as int == clip(a as int + b as int),
        in_range(r as int),
{
    let s: i64 = a + b;
    if s > FX_BOUND {
        FX_BOUND
    } else if s < -FX_BOUND {
        -FX_BOUND
    } else {
        s
    }
}

pub fn fx_sub(a: i64, b: i64) -> (r: i64)
    requires
        in_range(a as int),
        in_range(b as int),
    ensures
        r as int == clip(a as int - b as int),
        in_range(r as int),
{
    let s: i64 = a - b;
    if s > FX_BOUND {
        FX_BOUND
    } else if s < -FX_BOUND {
        -FX_BOUND
    } else {
        s
    }
}

pub fn fx_min(a: i64, b: i64) -> (r: i64)
    requires
        in_range(a as int),
        in_range(b as int),
    ensures
        r as int == min_i(a as int, b as int),
        in_range(r as int),
{
    if a < b {
        a
    } else {
        b
    }
}

pub fn fx_max(a: i64, b: i64) -> (r: i64)
    requires
        in_range(a as int),
        in_range(b as int),
    ensures
        r as int == max_i(a as int, b as int),
        in_range(r as int),
{
    if a < b {
        b
    } else {
        a
    }
}

pub fn fx_clamp(a: i64, lo: i64, hi: i64) -> (r: i64)
    requires
        in_range(a as int),
        in_range(lo as int),
        in_range(hi as int),
        lo <= hi,
    ensures
        r as int == clamp_i(a as int, lo as int, hi as int),
        in_range(r as int),
{
    if a < lo {
        lo
    } else if a > hi {
        hi
    } else {
        a
    }
}

pub proof fn lemma_abs_mul(a: int, b: int)
    ensures
        abs_i(a * b) == abs_i(a) * abs_i(b),
        (a * b < 0) <==> ((a < 0) != (b < 0)) && a != 0 && b != 0,
{
    if a >= 0 && b >= 0 {
        lemma_mul_nonnegative(a, b);
    } else if a < 0 && b >= 0 {
        lemma_mul_nonnegative(-a, b);
        lemma_mul_unary_negation(a, b);
        if b > 0 {
            vstd::arithmetic::mul::lemma_mul_strictly_positive(-a, b);
        }
    } else if a >= 0 && b < 0 {
        lemma_mul_nonnegative(a, -b);
        lemma_mul_unary_negation(b, a);
        vstd::arithmetic::mul::lemma_mul_is_commutative(a, b);
        vstd::arithmetic::mul::lemma_mul_is_commutative(-b, a);
        if a > 0 {
            vstd::arithmetic::mul::lemma_mul_strictly_positive(a, -b);
        }
    } else {
        lemma_mul_nonnegative(-a, -b);
        lemma_mul_unary_negation(a, -b);
        lemma_mul_unary_negation(a, b);
        vstd::arithmetic::mul::lemma_mul_strictly_positive(-a, -b);
    }
}

pub fn fx_mul(a: i64, b: i64) -> (r: i64)
    requires
        in_range(a as int),
        in_range(b as int),
    ensures
        r as int == fx_mul_spec(a as int, b as int),
        in_range(r as int),
{
    let neg: bool = (a < 0) != (b < 0);
    let am: u64 = fx_abs(a) as u64;
    let bm: u64 = fx_abs(b) as u64;
    proof {
        lemma_abs_mul(a as int, b as int);
        lemma_mul_nonnegative(am as int, bm as int);
        vstd::arithmetic::mul::lemma_mul_upper_bound(
            am as int,
            FX_BOUND as int,
            bm as int,
            FX_BOUND as int,
        );
    }
    let p: u128 = (am as u128) * (bm as u128);
    let q: u128 = p / (SCALE as u128);
    assert(q <= p);
    let qc: i64 = if q > FX_BOUND as u128 {
        FX_BOUND
    } else {
        q as i64
    };
    if neg {
        -qc
    } else {
        qc
    }
}

/// Floor of the square root of a natural number, as a recursive definition:
/// it steps up by one exactly when the next perfect square is reached.
pub open spec fn sqrt_floor(n: nat) -> nat
    decreases n,
{
    if n == 0 {
        0
    } else {
        let s = sqrt_floor((n - 1) as nat);
        if (s + 1) * (s + 1) <= n {
            s + 1
        } else {
            s
        }
    }
}

pub proof fn lemma_sqrt_floor_bounds(n: nat)
    ensures
        sqrt_floor(n) * sqrt_floor(n) <= n,
        n < (sqrt_floor(n) + 1) * (sqrt_floor(n) + 1),
    decreases n,
{
    if n > 0 {
        lemma_sqrt_floor_bounds((n - 1) as nat);
        let s = sqrt_floor((n - 1) as nat);
        let t = sqrt_floor(n);
        if (s + 1) * (s + 1) <= n {
            assert(t == s + 1);
            assert(t * t <= n && n < (t + 1) * (t + 1)) by (nonlinear_arith)
                requires
                    (s + 1) * (s + 1) <= n,
                    (s + 1) * (s + 1) > n - 1,
                    s >= 0,
                    t == s + 1,
            ;
        } else {
            assert(t == s);
            assert(t * t <= n && n < (t + 1) * (t + 1)) by (nonlinear_arith)
                requires
                    s * s <= n - 1,
                    !((s + 1) * (s + 1) <= n),
                    s >= 0,
                    n >= 1,
                    t == s,
            ;
        }
    } else {
        let t = sqrt_floor(n);
        assert(t == 0);
        assert(t * t <= n && n < (t + 1) * (t + 1)) by (nonlinear_arith)
            requires
                t == 0,
                n == 0,
        ;
    }
}

/// The bounds `r * r <= n < (r + 1) * (r + 1)` pin the root down.
pub proof fn lemma_sqrt_floor_unique(n: nat, r: nat)
    requires
        r * r <= n,
        n < (r + 1) * (r + 1),
    ensures
        r == sqrt_floor(n),
{
    lemma_sqrt_floor_bounds(n);
    let s = sqrt_floor(n);
    if r < s {
        assert((r + 1) * (r + 1) <= s * s) by (nonlinear_arith)
            requires
                r + 1 <= s,
                r >= 0,
        ;
    }
    if s < r {
        assert((s + 1) * (s + 1) <= r * r) by (nonlinear_arith)
            requires
                s + 1 <= r,
                s >= 0,
        ;
    }
}

/// Floor square root by binary search on `u128`.
pub fn isqrt_u128(n: u128) -> (r: u128)
    requires
        n < 0x40000000000000000000000000000000,
    ensures
        r as nat == sqrt_floor(n as nat),
        r * r <= n,
        r < 0x8000000000000000,
{
    let mut lo: u128 = 0;
    let mut hi: u128 = 0x8000000000000000;
    assert(hi * hi == 0x40000000000000000000000000000000) by (nonlinear_arith)
        requires
            hi == 0x8000000000000000,
    ;
    while lo + 1 < hi
        invariant
            lo < hi,
            hi <= 0x8000000000000000,
            lo * lo <= n,
            n < hi * hi,
        decreases hi - lo,
    {
        let mid: u128 = lo + (hi - lo) / 2;
        assert(mid * mid <= 0x8000000000000000 * 0x8000000000000000) by (nonlinear_arith)
            requires
                0 <= mid <= 0x8000000000000000,
        ;
        if mid * mid <= n {
            lo = mid;
        } else {
            hi = mid;
        }
    }
    proof {
        lemma_sqrt_floor_unique(n as nat, lo as nat);
    }
    lo
}

/// A product of non-negative factors scales down to a non-negative result.
pub proof fn lemma_fx_mul_nonneg(a: int, b: int)
    requires
        a >= 0,
        b >= 0,
    ensures
        fx_mul_spec(a, b) >= 0,
{
    lemma_mul_nonnegative(a, b);
    vstd::arithmetic::div_mod::lemma_div_pos_is_pos(a * b, SCALE as int);
}

/// Multiplying by zero scales down to zero.
pub proof fn lemma_fx_mul_zero(a: int)
    ensures
        fx_mul_spec(a, 0) == 0,
        fx_mul_spec(0, a) == 0,
{
    lemma_mul_basics(a);
    vstd::arithmetic::div_mod::lemma_div_of0(SCALE as int);
}

/// Truncating division cancels an exact multiple: `tdiv(k * l, l) == k`.
pub proof fn lemma_tdiv_mul_cancel(k: int, l: int)
    requires
        l >= 1,
    ensures
        tdiv(k * l, l) == k,
{
    lemma_abs_mul(k, l);
    vstd::arithmetic::mul::lemma_mul_is_commutative(abs_i(k), l);
    vstd::arithmetic::div_mod::lemma_div_multiples_vanish(abs_i(k), l);
    assert(abs_i(k * l) / abs_i(l) == abs_i(k));
    if k > 0 {
        lemma_mul_strictly_positive_local(k, l);
    } else if k < 0 {
        lemma_mul_strictly_positive_local(-k, l);
        lemma_mul_unary_negation(k, l);
    } else {
        lemma_mul_basics(l);
    }
}

proof fn lemma_mul_strictly_positive_local(a: int, b: int)
    requires
        a > 0,
        b > 0,
    ensures
        a * b > 0,
{
    vstd::arithmetic::mul::lemma_mul_strictly_positive(a, b);
}

proof fn lemma_mul_basics(a: int)
    ensures
        a * 0 == 0,
        0 * a == 0,
        a * 1 == a,
        1 * a == a,
{
    vstd::arithmetic::mul::lemma_mul_basics(a);
}

/// One is the unit of the fixed-point product, and the scale cancels in a
/// quotient.
pub proof fn lemma_fx_unit(a: int)
    requires
        in_range(a),
    ensures
        fx_mul_spec(a, SCALE as int) == a,
        fx_mul_spec(SCALE as int, a) == a,
        fx_div_spec(a, SCALE as int) == a,
{
    lemma_tdiv_mul_cancel(a, SCALE as int);
    vstd::arithmetic::mul::lemma_mul_is_commutative(a, SCALE as int);
}

/// Dividing zero yields zero.
pub proof fn lemma_fx_div_zero(b: int)
    ensures
        fx_div_spec(0, b) == 0,
{
    if b != 0 {
        lemma_mul_basics(SCALE as int);
        vstd::arithmetic::div_mod::lemma_div_of0(abs_i(b));
    }
}

/// The fixed-point product is odd in each argument.
pub proof fn lemma_fx_mul_neg(a: int, b: int)
    ensures
        fx_mul_spec(-a, b) == -fx_mul_spec(a, b),
{
    lemma_mul_unary_negation(a, b);
    lemma_abs_mul(a, b);
    lemma_abs_mul(-a, b);
    assert(abs_i(-(a * b)) == abs_i(a * b));
    if a * b == 0 {
        assert(tdiv(-a * b, SCALE as int) == tdiv(a * b, SCALE as int));
        assert(abs_i(a * b) / (SCALE as int) == 0) by {
            vstd::arithmetic::div_mod::lemma_div_of0(SCALE as int);
        }
    }
}

/// The floor square root of a perfect square is its root.
pub proof fn lemma_sqrt_square(k: nat)
    ensures
        sqrt_floor((k * k) as nat) == k,
{
    assert((k + 1) * (k + 1) > k * k) by (nonlinear_arith);
    lemma_sqrt_floor_unique((k * k) as nat, k);
}

/// Clamp a wide intermediate result into the fixed-point range.
pub fn clip128(p: i128) -> (r: i64)
    ensures
        r as int == clip(p as int),
        in_range(r as int),
{
    if p > FX_BOUND as i128 {
        FX_BOUND
    } else if p < -(FX_BOUND as i128) {
        -FX_BOUND
    } else {
        p as i64
    }
}

/// Truncating division on wide intermediates.
pub fn tdiv128(p: i128, d: i128) -> (r: i128)
    requires
        p > i128::MIN,
        d > 0,
    ensures
        r as int == tdiv(p as int, d as int),
{
    let m: u128 = if p < 0 {
        (-p) as u128
    } else {
        p as u128
    };
    let q: u128 = m / (d as u128);
    assert(q <= m);
    if p < 0 {
        -(q as i128)
    } else {
        q as i128
    }
}

pub fn fx_div(a: i64, b: i64) -> (r: i64)
    requires
        in_range(a as int),
        in_range(b as int),
    ensures
        r as int == fx_div_spec(a as int, b as int),
        in_range(r as int),
{
    if b == 0 {
        return 0;
    }
    let neg: bool = (a < 0) != (b < 0);
    let am: u64 = fx_abs(a) as u64;
    let bm: u64 = fx_abs(b) as u64;
    proof {
        lemma_abs_mul(a as int, SCALE as int);
        lemma_mul_nonnegative(am as int, SCALE as int);
        vstd::arithmetic::mul::lemma_mul_upper_bound(
            am as int,
            FX_BOUND as int,
            SCALE as int,
            SCALE as int,
        );
    }
    let p: u128 = (am as u128) * (SCALE as u128);
    let q: u128 = p / (bm as u128);
    let qc: i64 = if q > FX_BOUND as u128 {
        FX_BOUND
    } else {
        q as i64
    };
    let r: i64 = if neg {
        -qc
    } else {
        qc
    };
    proof {
        let ai = a as int;
        let bi = b as int;
        let s = SCALE as int;
        assert(abs_i(ai * s) == abs_i(ai) * abs_i(s));
        assert(abs_i(s) == s);
        assert(q as int == (am as int * s) / (bm as int));
        assert(tdiv(ai * s, bi) == if (ai * s < 0) != (bi < 0) {
            -(q as int)
        } else {
            q as int
        });
    }
    r
}

} // verus!
