//! Level snapshots: the read-only geometry one tick works against.

use vstd::prelude::*;
use crate::fx::in_range;
use crate::surface::Surface;
use crate::tile::Tile;
use crate::vec2::Vec2;
use crate::surface::geom_in_range;

verus! {

/// Point objects scattered over a level.
#[derive(Clone, Copy, PartialEq, Eq, Structural, Debug)]
pub enum ObjectKind {
    /// One-shot pressure refill on contact.
    Unicorn,
    /// Grants a buoyancy bubble on contact.
    Bubbler,
    /// Pure decoration.
    Decoration,
}

#[derive(Clone, Copy, PartialEq, Eq, Structural, Debug)]
pub struct Object {
    pub pos: Vec2,
    pub kind: ObjectKind,
}

#[derive(Clone, Copy, PartialEq, Eq, Structural, Debug)]
pub struct Cannon {
    pub pos: Vec2,
    /// Facing angle in fixed-point radians.
    pub rot: i64,
}

#[derive(Clone, Copy, PartialEq, Eq, Structural, Debug)]
pub struct Portal {
    pub pos: Vec2,
    /// Index of the destination portal, if any.
    pub dest: Option<usize>,
}

/// Immutable-per-tick level geometry.
#[derive(Debug)]
pub struct LevelInfo {
    pub surfaces: Vec<Surface>,
    pub tiles: Vec<Tile>,
    pub objects: Vec<Object>,
    pub cannons: Vec<Cannon>,
    pub portals: Vec<Portal>,
    pub spawn_point: Vec2,
    pub finish_point: Vec2,
    /// Polylines used only for progress scoring, not physics.
    pub expected_path: Vec<Vec<Vec2>>,
    /// Progress counts only within this distance of the expected path.
    pub max_progress_distance: i64,
}

impl LevelInfo {
    pub open spec fn wf(self) -> bool {
        &&& forall|i: int| 0 <= i < self.surfaces@.len() ==> #[trigger] self.surfaces@[i].wf()
        &&& forall|i: int| 0 <= i < self.tiles@.len() ==> #[trigger] self.tiles@[i].wf()
        &&& forall|i: int|
            0 <= i < self.objects@.len() ==> geom_in_range(#[trigger] self.objects@[i].pos)
        &&& forall|i: int|
            0 <= i < self.cannons@.len() ==> geom_in_range(#[trigger] self.cannons@[i].pos)
                && in_range(self.cannons@[i].rot as int)
        &&& forall|i: int|
            0 <= i < self.portals@.len() ==> geom_in_range(#[trigger] self.portals@[i].pos)
                && match self.portals@[i].dest {
                Option::Some(d) => 0 <= d < self.portals@.len(),
                Option::None => true,
            }
        &&& geom_in_range(self.spawn_point)
        &&& geom_in_range(self.finish_point)
        &&& forall|i: int, j: int|
            0 <= i < self.expected_path@.len() && 0 <= j < self.expected_path@[i]@.len()
                ==> geom_in_range(#[trigger] self.expected_path@[i]@[j])
        &&& 0 <= self.max_progress_distance && in_range(self.max_progress_distance as int)
    }

    pub fn empty() -> (r: LevelInfo)
        ensures
            r.wf(),
            r.surfaces@.len() == 0,
            r.tiles@.len() == 0,
            r.objects@.len() == 0,
            r.cannons@.len() == 0,
            r.portals@.len() == 0,
            r.expected_path@.len() == 0,
            r.spawn_point == (Vec2 { x: 0i64, y: 0i64 }),
            r.finish_point == (Vec2 { x: 0i64, y: 0i64 }),
    {
        LevelInfo {
            surfaces: Vec::new(),
            tiles: Vec::new(),
            objects: Vec::new(),
            cannons: Vec::new(),
            portals: Vec::new(),
            spawn_point: Vec2 { x: 0, y: 0 },
            finish_point: Vec2 { x: 0, y: 0 },
            expected_path: Vec::new(),
            max_progress_distance: 10_000_000,
        }
    }
}

} // verus!
