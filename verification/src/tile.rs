//! Triangular flow tiles.
//!
//! A tile is an oriented triangle with counter-clockwise winding; a point is
//! inside exactly when it lies on the interior side of all three edges, a
//! test made of three raw two-dimensional cross products (no rescaling, so
//! the test is exact).

use vstd::prelude::*;
use crate::fx::in_range;
use crate::surface::{GEOM_BOUND, geom_in_range};
use crate::vec2::{Vec2, vec_in_range};

verus! {

/// Behaviour of a tile's area, resolved once at load time.
#[derive(Clone, Copy, PartialEq, Eq, Structural, Debug)]
pub struct TileParams {
    /// Drag against the velocity relative to the flow.
    pub friction: i64,
    /// Drag along the flow direction only.
    pub friction_along_flow: i64,
    /// Constant force applied while inside.
    pub additional_force: Vec2,
    /// Scales the tick period while inside; `None` leaves time alone.
    pub time_scale: Option<i64>,
    /// The tile counts as water at the sampling point.
    pub water: bool,
}

impl TileParams {
    pub open spec fn wf(self) -> bool {
        &&& 0 <= self.friction && in_range(self.friction as int)
        &&& 0 <= self.friction_along_flow && in_range(self.friction_along_flow as int)
        &&& vec_in_range(self.additional_force)
        &&& match self.time_scale {
            Option::Some(ts) => 0 <= ts && in_range(ts as int),
            Option::None => true,
        }
    }
}

#[derive(Clone, Copy, PartialEq, Eq, Structural, Debug)]
pub struct Tile {
    pub a: Vec2,
    pub b: Vec2,
    pub c: Vec2,
    /// Ambient flow velocity of the tile.
    pub flow: Vec2,
    pub params: TileParams,
}

/// Twice the signed area of the triangle `p1 p2 q`: positive when `q` is on
/// the left of the directed edge `p1 -> p2`.
pub open spec fn edge_side(p1: Vec2, p2: Vec2, q: Vec2) -> int {
    (p2.x - p1.x) * (q.y - p1.y) - (p2.y - p1.y) * (q.x - p1.x)
}

/// Interior test: on or left of every edge of the triangle.
pub open spec fn tile_contains(t: Tile, q: Vec2) -> bool {
    edge_side(t.a, t.b, q) >= 0 && edge_side(t.b, t.c, q) >= 0 && edge_side(t.c, t.a, q) >= 0
}

impl Tile {
    pub open spec fn wf(self) -> bool {
        &&& geom_in_range(self.a)
        &&& geom_in_range(self.b)
        &&& geom_in_range(self.c)
        &&& edge_side(self.a, self.b, self.c) >= 0
        &&& vec_in_range(self.flow)
        &&& self.params.wf()
    }

    /// Exact interior test for a point.
    pub fn contains(&self, q: Vec2) -> (r: bool)
        requires
            self.wf(),
            q.wf(),
        ensures
            r <==> tile_contains(*self, q),
    {
        let ab = edge_side_exec(self.a, self.b, q);
        let bc = edge_side_exec(self.b, self.c, q);
        let ca = edge_side_exec(self.c, self.a, q);
        ab >= 0 && bc >= 0 && ca >= 0
    }
}

/// Loose coordinate bound for edge-test operands: twice the geometry range.
pub open spec fn edge_coord_range(v: Vec2) -> bool {
    -2 * GEOM_BOUND as int <= v.x <= 2 * GEOM_BOUND as int && -2 * GEOM_BOUND as int <= v.y <= 2
        * GEOM_BOUND as int
}

/// Exact signed edge test in a wide intermediate.
pub fn edge_side_exec(p1: Vec2, p2: Vec2, q: Vec2) -> (r: i128)
    requires
        edge_coord_range(p1),
        edge_coord_range(p2),
        vec_in_range(q),
    ensures
        r as int == edge_side(p1, p2, q),
{
    let ex: i128 = p2.x as i128 - p1.x as i128;
    let ey: i128 = p2.y as i128 - p1.y as i128;
    let qx: i128 = q.x as i128 - p1.x as i128;
    let qy: i128 = q.y as i128 - p1.y as i128;
    proof {
        lemma_edge_products(ex as int, qy as int);
        lemma_edge_products(ey as int, qx as int);
    }
    ex * qy - ey * qx
}

/// Bound on the cross-product terms: an edge coordinate is small, a point
/// coordinate is merely in range.
proof fn lemma_edge_products(e: int, q: int)
    requires
        crate::fx::abs_i(e) <= 4 * GEOM_BOUND as int,
        crate::fx::abs_i(q) <= crate::fx::FX_BOUND as int + 2 * GEOM_BOUND as int,
    ensures
        crate::fx::abs_i(e * q) <= 0x2000000000000000000000000000000,
{
    crate::fx::lemma_abs_mul(e, q);
    vstd::arithmetic::mul::lemma_mul_upper_bound(
        crate::fx::abs_i(e),
        4 * GEOM_BOUND as int,
        crate::fx::abs_i(q),
        crate::fx::FX_BOUND as int + 2 * GEOM_BOUND as int,
    );
    vstd::arithmetic::mul::lemma_mul_nonnegative(crate::fx::abs_i(e), crate::fx::abs_i(q));
    assert(4 * GEOM_BOUND as int * (crate::fx::FX_BOUND as int + 2 * GEOM_BOUND as int)
        <= 0x2000000000000000000000000000000) by (nonlinear_arith);
}

} // verus!
