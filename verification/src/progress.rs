//! Progress scoring along the expected path.
//!
//! The expected path is a list of polylines used only for scoring, never for
//! physics.  Progress at a point is the arc length up to the nearest path
//! point, divided by the whole path length; points further from the path
//! than the level's progress distance score nothing.

use vstd::prelude::*;
use crate::fx::{clip, fx_add, fx_div, fx_div_spec, in_range};
use crate::game::Game;
use crate::guy::{Guy, GuyProgress};
use crate::level::LevelInfo;
use vstd::pervasive::VecAdditionalExecFns;
use crate::surface::{Surface, SurfaceParams, vector_from_spec};
use crate::vec2::{Vec2, add_spec, len_spec, sub_spec, vec_in_range};

verus! {

/// A throwaway surface used only to query the nearest point of a segment.
pub open spec fn probe_spec(a: Vec2, b: Vec2) -> Surface {
    Surface {
        p1: a,
        p2: b,
        flow: 0i64,
        params: SurfaceParams {
            bounciness: 0i64,
            min_bounce_vel: 0i64,
            friction: 0i64,
            speed_friction: 0i64,
            rotation_friction: 0i64,
            stick_strength: 0i64,
            max_stick_force: 0i64,
            fallthrough_speed: 0i64,
            non_collidable: true,
            water: false,
            snow: false,
        },
    }
}

fn probe(a: Vec2, b: Vec2) -> (r: Surface)
    ensures
        r == probe_spec(a, b),
{
    Surface {
        p1: a,
        p2: b,
        flow: 0,
        params: SurfaceParams {
            bounciness: 0,
            min_bounce_vel: 0,
            friction: 0,
            speed_friction: 0,
            rotation_friction: 0,
            stick_strength: 0,
            max_stick_force: 0,
            fallthrough_speed: 0,
            non_collidable: true,
            water: false,
            snow: false,
        },
    }
}

/// Length of one segment (degenerate segments count zero).
pub open spec fn seg_len(a: Vec2, b: Vec2) -> int {
    len_spec(sub_spec(b, a))
}

/// Accumulated length of the first `k` points' segments of one polyline.
pub open spec fn path_len_acc(path: Seq<Vec2>, acc: int, k: int) -> int
    decreases k,
{
    if k <= 1 {
        acc
    } else {
        clip(path_len_acc(path, acc, k - 1) + seg_len(path[k - 2], path[k - 1]))
    }
}

/// Accumulated length of the first `p` polylines.
pub open spec fn paths_len(paths: Seq<Seq<Vec2>>, p: int) -> int
    decreases p,
{
    if p <= 0 {
        0
    } else {
        path_len_acc(paths[p - 1], paths_len(paths, p - 1), paths[p - 1].len() as int)
    }
}

/// Running state of the nearest-segment scan.
#[derive(Clone, Copy, PartialEq, Eq, Structural, Debug)]
pub struct ProgressScan {
    /// Distance of the closest path point seen so far.
    pub closest: i64,
    /// Progress fraction at that point, if any segment came close enough.
    pub progress: Option<i64>,
    /// Arc length before the current segment.
    pub prefix: i64,
}

impl ProgressScan {
    pub open spec fn wf(self) -> bool {
        &&& in_range(self.closest as int)
        &&& in_range(self.prefix as int)
        &&& match self.progress {
            Option::Some(v) => in_range(v as int),
            Option::None => true,
        }
    }
}

/// One segment of the scan: when its nearest point improves on the closest
/// distance so far, the progress becomes the arc length at that point over
/// the whole; the prefix then grows by the segment either way.
pub open spec fn scan_seg(st: ProgressScan, a: Vec2, b: Vec2, pos: Vec2, total: int) -> ProgressScan {
    let st1 = if a == b {
        st
    } else {
        let v = vector_from_spec(probe_spec(a, b), pos);
        let d = len_spec(v);
        if d < st.closest {
            ProgressScan {
                closest: d as i64,
                progress: Option::Some(
                    fx_div_spec(
                        clip(st.prefix + len_spec(sub_spec(add_spec(pos, v), a))),
                        total,
                    ) as i64,
                ),
                prefix: st.prefix,
            }
        } else {
            st
        }
    };
    ProgressScan { prefix: clip(st1.prefix + seg_len(a, b)) as i64, ..st1 }
}

/// The scan over the first `k` points of one polyline.
pub open spec fn scan_path(path: Seq<Vec2>, pos: Vec2, total: int, st: ProgressScan, k: int) -> ProgressScan
    decreases k,
{
    if k <= 1 {
        st
    } else {
        scan_seg(scan_path(path, pos, total, st, k - 1), path[k - 2], path[k - 1], pos, total)
    }
}

/// Progress of a position: the arc fraction at the nearest path point, or
/// nothing when every segment is further than `max_dist`.
pub open spec fn progress_of(paths: Seq<Seq<Vec2>>, max_dist: i64, pos: Vec2) -> Option<i64> {
    let total = paths_len(paths, paths.len() as int);
    let start = ProgressScan { closest: max_dist, progress: Option::None, prefix: 0i64 };
    scan_paths(paths, pos, total, start, paths.len() as int).progress
}

/// The scan over the first `p` polylines.
pub open spec fn scan_paths(
    paths: Seq<Seq<Vec2>>,
    pos: Vec2,
    total: int,
    st: ProgressScan,
    p: int,
) -> ProgressScan
    decreases p,
{
    if p <= 0 {
        st
    } else {
        scan_path(
            paths[p - 1],
            pos,
            total,
            scan_paths(paths, pos, total, st, p - 1),
            paths[p - 1].len() as int,
        )
    }
}

/// A non-degenerate segment whose measured distance to `pos` (the floor of
/// the true Euclidean distance to its nearest point, see
/// `crate::surface::lemma_vector_from_nearest`) is below `bound`.
pub open spec fn seg_close(a: Vec2, b: Vec2, pos: Vec2, bound: int) -> bool {
    !(a == b) && len_spec(vector_from_spec(probe_spec(a, b), pos)) < bound
}

/// The scan of one polyline only ever lowers the closest distance; it
/// reports progress exactly when progress was already reported or some
/// segment comes closer than the incoming closest distance; and a lowered
/// closest distance always comes with a report.
proof fn lemma_scan_path_some(path: Seq<Vec2>, pos: Vec2, total: int, st: ProgressScan, k: int)
    requires
        0 <= k <= path.len(),
    ensures
        scan_path(path, pos, total, st, k).closest <= st.closest,
        scan_path(path, pos, total, st, k).progress is Some <==> (st.progress is Some
            || exists|j: int|
            1 <= j < k && #[trigger] seg_close(path[j - 1], path[j], pos, st.closest as int)),
        scan_path(path, pos, total, st, k).closest < st.closest ==> scan_path(
            path,
            pos,
            total,
            st,
            k,
        ).progress is Some,
    decreases k,
{
    if k > 1 {
        lemma_scan_path_some(path, pos, total, st, k - 1);
        let prev = scan_path(path, pos, total, st, k - 1);
        let cur = scan_path(path, pos, total, st, k);
        let a = path[k - 2];
        let b = path[k - 1];
        if a == b {
            assert(cur.closest == prev.closest && cur.progress == prev.progress);
            assert(cur.progress is Some <==> (st.progress is Some || exists|j: int|
                1 <= j < k && #[trigger] seg_close(path[j - 1], path[j], pos,
                st.closest as int))) by {
                if cur.progress is Some {
                    if !(st.progress is Some) {
                        let w = choose|j: int|
                            1 <= j < k - 1 && #[trigger] seg_close(path[j - 1], path[j], pos,
                            st.closest as int);
                        assert(seg_close(path[w - 1], path[w], pos, st.closest as int));
                    }
                } else {
                    if exists|j: int|
                        1 <= j < k && #[trigger] seg_close(path[j - 1], path[j], pos,
                        st.closest as int) {
                        let w = choose|j: int|
                            1 <= j < k && #[trigger] seg_close(path[j - 1], path[j], pos,
                            st.closest as int);
                        assert(w < k - 1 || w == k - 1);
                        if w == k - 1 {
                            assert(!(path[w - 1] == path[w]) && a == b);
                        }
                        assert(1 <= w < k - 1 && seg_close(path[w - 1], path[w], pos,
                            st.closest as int));
                    }
                }
            }
        } else {
            let d = len_spec(vector_from_spec(probe_spec(a, b), pos));
            if d < prev.closest {
                assert(cur.progress is Some && cur.closest == d);
                assert(seg_close(path[k - 2], path[k - 1], pos, st.closest as int));
            } else {
                assert(cur.closest == prev.closest && cur.progress == prev.progress);
                if exists|j: int|
                    1 <= j < k && #[trigger] seg_close(path[j - 1], path[j], pos,
                    st.closest as int) {
                    let w = choose|j: int|
                        1 <= j < k && #[trigger] seg_close(path[j - 1], path[j], pos,
                        st.closest as int);
                    if w == k - 1 {
                        assert(d < st.closest);
                        assert(prev.closest <= d);
                        assert(prev.closest < st.closest);
                        assert(prev.progress is Some);
                    } else {
                        assert(1 <= w < k - 1 && seg_close(path[w - 1], path[w], pos,
                            st.closest as int));
                    }
                }
                if cur.progress is Some && !(st.progress is Some) {
                    let w = choose|j: int|
                        1 <= j < k - 1 && #[trigger] seg_close(path[j - 1], path[j], pos,
                        st.closest as int);
                    assert(seg_close(path[w - 1], path[w], pos, st.closest as int));
                }
            }
        }
    }
}

/// Whether some segment of the first `p` polylines is a close segment.
pub open spec fn any_close(paths: Seq<Seq<Vec2>>, pos: Vec2, bound: int, p: int) -> bool {
    exists|q: int, j: int|
        0 <= q < p && 1 <= j < paths[q].len() && #[trigger] seg_close(
            paths[q][j - 1],
            paths[q][j],
            pos,
            bound,
        )
}

/// As `lemma_scan_path_some`, over all polylines.
proof fn lemma_scan_paths_some(paths: Seq<Seq<Vec2>>, pos: Vec2, total: int, st: ProgressScan, p: int)
    requires
        0 <= p <= paths.len(),
    ensures
        scan_paths(paths, pos, total, st, p).closest <= st.closest,
        scan_paths(paths, pos, total, st, p).progress is Some <==> (st.progress is Some
            || any_close(paths, pos, st.closest as int, p)),
        scan_paths(paths, pos, total, st, p).closest < st.closest ==> scan_paths(
            paths,
            pos,
            total,
            st,
            p,
        ).progress is Some,
    decreases p,
{
    if p > 0 {
        lemma_scan_paths_some(paths, pos, total, st, p - 1);
        let prev = scan_paths(paths, pos, total, st, p - 1);
        let cur = scan_paths(paths, pos, total, st, p);
        let path = paths[p - 1];
        lemma_scan_path_some(path, pos, total, prev, path.len() as int);
        assert(cur == scan_path(path, pos, total, prev, path.len() as int));
        if cur.progress is Some {
            if !(st.progress is Some) {
                if prev.progress is Some {
                    let (q, j) = choose|q: int, j: int|
                        0 <= q < p - 1 && 1 <= j < paths[q].len() && #[trigger] seg_close(
                        paths[q][j - 1], paths[q][j], pos, st.closest as int);
                    assert(0 <= q < p && 1 <= j < paths[q].len() && seg_close(paths[q][j - 1],
                        paths[q][j], pos, st.closest as int));
                } else {
                    let w = choose|j: int|
                        1 <= j < path.len() && #[trigger] seg_close(path[j - 1], path[j], pos,
                        prev.closest as int);
                    assert(len_spec(vector_from_spec(probe_spec(path[w - 1], path[w]), pos))
                        < prev.closest <= st.closest);
                    assert(0 <= p - 1 < p && 1 <= w < paths[p - 1].len() && seg_close(
                        paths[p - 1][w - 1],
                        paths[p - 1][w],
                        pos,
                        st.closest as int,
                    ));
                }
            }
        } else {
            if any_close(paths, pos, st.closest as int, p) {
                let (q, j) = choose|q: int, j: int|
                    0 <= q < p && 1 <= j < paths[q].len() && #[trigger] seg_close(
                    paths[q][j - 1], paths[q][j], pos, st.closest as int);
                if q < p - 1 {
                    assert(any_close(paths, pos, st.closest as int, p - 1));
                    assert(prev.progress is Some);
                } else {
                    let d = len_spec(vector_from_spec(probe_spec(path[j - 1], path[j]), pos));
                    assert(d < st.closest);
                    if d < prev.closest {
                        assert(seg_close(path[j - 1], path[j], pos, prev.closest as int));
                        assert(cur.progress is Some);
                    } else {
                        assert(prev.closest <= d < st.closest);
                        assert(prev.progress is Some);
                    }
                }
            }
        }
    }
}

/// When progress is reported at all: exactly when some expected-path segment
/// measures closer to the position than the progress distance.  The measure
/// is the floor of the true Euclidean distance to the segment's nearest
/// point, exact at and beyond endpoints (see
/// `crate::surface::lemma_vector_from_nearest` and
/// `crate::surface::lemma_vector_from_endpoints`).
pub proof fn lemma_progress_some_iff(paths: Seq<Seq<Vec2>>, max_dist: i64, pos: Vec2)
    ensures
        progress_of(paths, max_dist, pos) is Some <==> any_close(
            paths,
            pos,
            max_dist as int,
            paths.len() as int,
        ),
{
    let total = paths_len(paths, paths.len() as int);
    let start = ProgressScan { closest: max_dist, progress: Option::None, prefix: 0i64 };
    lemma_scan_paths_some(paths, pos, total, start, paths.len() as int);
}

fn total_of_path(path: &Vec<Vec2>, acc: i64) -> (r: i64)
    requires
        forall|j: int| 0 <= j < path@.len() ==> crate::surface::geom_in_range(#[trigger] path@[j]),
        in_range(acc as int),
    ensures
        r as int == path_len_acc(path@, acc as int, path@.len() as int),
        in_range(r as int),
{
    let nk = path.len();
    let mut total = acc;
    if nk == 0 {
        return total;
    }
    let mut k: usize = 1;
    while k < nk
        invariant
            1 <= k <= nk,
            nk == path@.len(),
            forall|j: int| 0 <= j < path@.len() ==> crate::surface::geom_in_range(
                #[trigger] path@[j],
            ),
            in_range(total as int),
            total as int == path_len_acc(path@, acc as int, k as int),
        decreases nk - k,
    {
        let a = path[k - 1];
        let b = path[k];
        let d = b.sub(a).len();
        total = fx_add(total, d);
        k = k + 1;
    }
    total
}

fn scan_one_path(path: &Vec<Vec2>, pos: Vec2, total: i64, st0: ProgressScan) -> (r: ProgressScan)
    requires
        forall|j: int| 0 <= j < path@.len() ==> crate::surface::geom_in_range(#[trigger] path@[j]),
        vec_in_range(pos),
        in_range(total as int),
        st0.wf(),
    ensures
        r == scan_path(path@, pos, total as int, st0, path@.len() as int),
        r.wf(),
{
    let nk = path.len();
    let mut st = st0;
    if nk == 0 {
        return st;
    }
    let mut k: usize = 1;
    while k < nk
        invariant
            1 <= k <= nk,
            nk == path@.len(),
            forall|j: int| 0 <= j < path@.len() ==> crate::surface::geom_in_range(
                #[trigger] path@[j],
            ),
            vec_in_range(pos),
            in_range(total as int),
            st.wf(),
            st == scan_path(path@, pos, total as int, st0, k as int),
        decreases nk - k,
    {
        let a = path[k - 1];
        let b = path[k];
        if !(a == b) {
            let s = probe(a, b);
            let v = s.vector_from(pos);
            let d = v.len();
            if d < st.closest {
                let arc = fx_add(st.prefix, pos.add(v).sub(a).len());
                st.closest = d;
                st.progress = Option::Some(fx_div(arc, total));
            }
        }
        let d2 = b.sub(a).len();
        st.prefix = fx_add(st.prefix, d2);
        k = k + 1;
    }
    st
}

impl LevelInfo {
    /// Progress fraction of a position along the expected path: the arc
    /// length at the nearest path point over the whole length, or nothing
    /// when the position is further from every segment than the level's
    /// progress distance.
    pub fn progress_at(&self, pos: Vec2) -> (r: Option<i64>)
        requires
            self.wf(),
            vec_in_range(pos),
        ensures
            r == progress_of(
                self.expected_path@.map_values(|q: Vec<Vec2>| q@),
                self.max_progress_distance,
                pos,
            ),
    {
        let ghost paths = self.expected_path@.map_values(|q: Vec<Vec2>| q@);
        let np = self.expected_path.len();
        let mut total: i64 = 0;
        let mut p: usize = 0;
        while p < np
            invariant
                0 <= p <= np,
                np == paths.len(),
                paths == self.expected_path@.map_values(|q: Vec<Vec2>| q@),
                self.wf(),
                in_range(total as int),
                total as int == paths_len(paths, p as int),
            decreases np - p,
        {
            let path = &self.expected_path[p];
            proof {
                assert(paths[p as int] == path@);
            }
            total = total_of_path(path, total);
            p = p + 1;
        }
        let ghost tot = total as int;
        let start = ProgressScan {
            closest: self.max_progress_distance,
            progress: Option::None,
            prefix: 0,
        };
        let mut st = start;
        let mut p2: usize = 0;
        while p2 < np
            invariant
                0 <= p2 <= np,
                np == paths.len(),
                paths == self.expected_path@.map_values(|q: Vec<Vec2>| q@),
                self.wf(),
                vec_in_range(pos),
                in_range(total as int),
                total as int == tot,
                st.wf(),
                start == (ProgressScan {
                    closest: self.max_progress_distance,
                    progress: Option::None,
                    prefix: 0i64,
                }),
                st == scan_paths(paths, pos, tot, start, p2 as int),
            decreases np - p2,
        {
            let path = &self.expected_path[p2];
            proof {
                assert(paths[p2 as int] == path@);
            }
            st = scan_one_path(path, pos, total, st);
            p2 = p2 + 1;
        }
        st.progress
    }
}

/// One progress-bookkeeping step for an avatar: the fraction is assigned
/// when the path is near enough, the best fraction never decreases, and the
/// best time becomes the smallest finishing time seen.
pub open spec fn progress_update_spec(g: Guy, p: Option<i64>, sim_time: i64) -> Guy {
    let fraction = match p {
        Option::Some(v) => v,
        Option::None => g.progress.fraction,
    };
    let best_fraction = if fraction > g.progress.best_fraction {
        fraction
    } else {
        g.progress.best_fraction
    };
    let best_time = if g.progress.finished && (match g.progress.best_time {
        Option::Some(t) => sim_time < t,
        Option::None => true,
    }) {
        Option::Some(sim_time)
    } else {
        g.progress.best_time
    };
    Guy {
        progress: GuyProgress {
            finished: g.progress.finished,
            fraction,
            best_fraction,
            best_time,
        },
        ..g
    }
}

impl Game {
    /// Refresh the local avatar's progress bookkeeping from the expected
    /// path and the session clock: see `progress_update_spec`.
    pub fn update_progress(&mut self)
        requires
            old(self).wf(),
        ensures
            final(self).wf(),
            final(self).level == old(self).level,
            final(self).config == old(self).config,
            final(self).client_id == old(self).client_id,
            final(self).my_guy == old(self).my_guy,
            final(self).simulation_time == old(self).simulation_time,
            final(self).reconciler.models() == old(self).reconciler.models(),
            ({
                let m = old(self).model();
                match m.my_guy {
                    Option::Some(id) => match crate::game::guy_index(m.guys, id as int, 0) {
                        Option::Some(i) => final(self).guys@ == m.guys.update(
                            i,
                            progress_update_spec(
                                m.guys[i],
                                progress_of(
                                    old(self).level.expected_path@.map_values(|q: Vec<Vec2>| q@),
                                    old(self).level.max_progress_distance,
                                    m.guys[i].ball.pos,
                                ),
                                old(self).simulation_time,
                            ),
                        ),
                        Option::None => final(self).guys@ == m.guys,
                    },
                    Option::None => final(self).guys@ == m.guys,
                }
            }),
    {
        let my = match self.my_guy {
            Option::Some(id) => id,
            Option::None => {
                return ;
            },
        };
        let i = match self.find_guy(my) {
            Option::Some(i) => i,
            Option::None => {
                return ;
            },
        };
        let mut guy = self.guys[i];
        let p = self.level.progress_at(guy.ball.pos);
        let fraction = match p {
            Option::Some(v) => v,
            Option::None => guy.progress.fraction,
        };
        let best_fraction = if fraction > guy.progress.best_fraction {
            fraction
        } else {
            guy.progress.best_fraction
        };
        let best_time = if guy.progress.finished && (match guy.progress.best_time {
            Option::Some(t) => self.simulation_time < t,
            Option::None => true,
        }) {
            Option::Some(self.simulation_time)
        } else {
            guy.progress.best_time
        };
        guy.progress = GuyProgress { finished: guy.progress.finished, fraction, best_fraction, best_time };
        self.guys.set(i, guy);
    }
}

} // verus!
