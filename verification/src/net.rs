//! Network state reconciliation.
//!
//! For each remote avatar the reconciler buffers time-stamped snapshots in
//! timestamp order and tracks a remote simulation clock that advances with
//! every local tick.  Each tick, every buffered snapshot whose timestamp is
//! due is applied in timestamp order — the later snapshot always ends up
//! visible.  An entity whose newest snapshot stays more than the desync
//! threshold behind (or ahead of) its tracked clock is dropped wholesale.

use vstd::prelude::*;
use vstd::pervasive::VecAdditionalExecFns;
use crate::fx::{SCALE, clip, in_range, abs_i};
use crate::guy::Guy;

verus! {

/// Tracked clocks that drift this far from the newest snapshot mark a stale
/// entity (five simulated seconds).
pub const DESYNC_THRESHOLD: i64 = 5_000_000;

/// One buffered remote snapshot.
#[derive(Clone, Copy, PartialEq, Eq, Structural, Debug)]
pub struct TimedGuy {
    pub time: i64,
    pub guy: Guy,
}

/// A snapshot applied to a remote avatar this tick.
#[derive(Clone, Copy, PartialEq, Eq, Structural, Debug)]
pub struct AppliedSnap {
    pub id: i64,
    pub guy: Guy,
}

/// Buffering state of one remote avatar.
pub struct RemoteEntity {
    pub id: i64,
    /// Locally tracked remote simulation time.
    pub sim_time: i64,
    /// Timestamp of the newest snapshot ever received for this entity.
    pub last_seen: i64,
    /// Pending snapshots, sorted by timestamp (ties keep arrival order).
    pub updates: Vec<TimedGuy>,
}

/// The ghost image of a remote entity: plain values only.
pub ghost struct EntityModel {
    pub id: int,
    pub sim_time: int,
    pub last_seen: int,
    pub updates: Seq<TimedGuy>,
}

pub open spec fn emodel(e: RemoteEntity) -> EntityModel {
    EntityModel {
        id: e.id as int,
        sim_time: e.sim_time as int,
        last_seen: e.last_seen as int,
        updates: e.updates@,
    }
}

pub open spec fn updates_sorted(updates: Seq<TimedGuy>) -> bool {
    forall|i: int, j: int| 0 <= i < j < updates.len() ==> updates[i].time <= updates[j].time
}

impl RemoteEntity {
    pub open spec fn wf(self) -> bool {
        &&& in_range(self.sim_time as int)
        &&& in_range(self.last_seen as int)
        &&& updates_sorted(self.updates@)
        &&& forall|i: int|
            0 <= i < self.updates@.len() ==> in_range(#[trigger] self.updates@[i].time as int)
                && self.updates@[i].guy.wf()
        &&& forall|i: int|
            0 <= i < self.updates@.len() ==> #[trigger] self.updates@[i].time <= self.last_seen
    }
}

/// Position at which a snapshot with timestamp `t` enters the sorted queue:
/// after every queued snapshot with timestamp at most `t`.
pub open spec fn insert_pos(updates: Seq<TimedGuy>, t: int, k: int) -> int
    decreases updates.len() - k,
{
    if k < 0 || k >= updates.len() {
        updates.len() as int
    } else if updates[k].time > t {
        k
    } else {
        insert_pos(updates, t, k + 1)
    }
}

/// Number of queued snapshots due at time `t`: the longest prefix with
/// timestamps at most `t`.
pub open spec fn due_count(updates: Seq<TimedGuy>, t: int) -> int {
    insert_pos(updates, t, 0)
}

proof fn lemma_insert_pos_bounds(updates: Seq<TimedGuy>, t: int, k: int)
    requires
        0 <= k <= updates.len(),
    ensures
        k <= insert_pos(updates, t, k) <= updates.len(),
        forall|i: int| k <= i < insert_pos(updates, t, k) ==> updates[i].time <= t,
        insert_pos(updates, t, k) < updates.len() ==> updates[insert_pos(updates, t, k)].time > t,
    decreases updates.len() - k,
{
    if k < updates.len() && updates[k].time <= t {
        lemma_insert_pos_bounds(updates, t, k + 1);
    }
}

/// The queue stays sorted under insertion at the chosen position.
pub proof fn lemma_due_prefix(updates: Seq<TimedGuy>, t: int)
    ensures
        0 <= due_count(updates, t) <= updates.len(),
        forall|i: int| 0 <= i < due_count(updates, t) ==> updates[i].time <= t,
        due_count(updates, t) < updates.len() ==> updates[due_count(updates, t)].time > t,
{
    lemma_insert_pos_bounds(updates, t, 0);
}

/// Advance one remote entity by one tick: the clock moves forward, every due
/// snapshot is popped in timestamp order and the last of them is the one to
/// apply, and a stale entity (clock drifted beyond the desync threshold from
/// the newest snapshot ever received) is flagged for removal.
pub fn advance_entity(e: &mut RemoteEntity, dt: i64) -> (r: (Option<Guy>, bool))
    requires
        old(e).wf(),
        0 <= dt,
        in_range(dt as int),
    ensures
        final(e).wf(),
        final(e).id == old(e).id,
        final(e).last_seen == old(e).last_seen,
        final(e).sim_time as int == clip(old(e).sim_time + dt),
        final(e).updates@ == old(e).updates@.skip(due_count(old(e).updates@, final(e).sim_time as int)),
        r.0 == (if due_count(old(e).updates@, final(e).sim_time as int) > 0 {
            Option::Some(
                old(e).updates@[due_count(old(e).updates@, final(e).sim_time as int) - 1].guy,
            )
        } else {
            Option::None::<Guy>
        }),
        r.1 == (abs_i(final(e).sim_time - old(e).last_seen) > DESYNC_THRESHOLD as int),
{
    let t2 = crate::fx::fx_add(e.sim_time, dt);
    e.sim_time = t2;
    proof {
        lemma_due_prefix(e.updates@, t2 as int);
    }
    let ghost original = e.updates@;
    let mut applied: Option<Guy> = Option::None;
    let mut k: usize = 0;
    while k < e.updates.len() && e.updates[k].time <= t2
        invariant
            0 <= k <= e.updates@.len(),
            e.updates@ == original,
            in_range(t2 as int),
            updates_sorted(original),
            forall|i: int| 0 <= i < k ==> original[i].time <= t2,
            applied == (if k > 0 {
                Option::Some(original[k - 1].guy)
            } else {
                Option::None::<Guy>
            }),
        decreases e.updates@.len() - k,
    {
        applied = Option::Some(e.updates[k].guy);
        k = k + 1;
    }
    proof {
        assert(k as int == due_count(original, t2 as int)) by {
            lemma_due_prefix(original, t2 as int);
            if (k as int) < due_count(original, t2 as int) {
                assert(original[k as int].time <= t2);
            }
            if (k as int) > due_count(original, t2 as int) {
                assert(original[due_count(original, t2 as int)].time > t2);
                assert(original[due_count(original, t2 as int)].time <= t2);
            }
        }
    }
    let mut kept: Vec<TimedGuy> = Vec::new();
    let mut j: usize = k;
    while j < e.updates.len()
        invariant
            k <= j <= e.updates@.len(),
            e.updates@ == original,
            kept@ == original.subrange(k as int, j as int),
        decreases e.updates@.len() - j,
    {
        kept.push(e.updates[j]);
        j = j + 1;
    }
    proof {
        assert(kept@ =~= original.skip(k as int));
    }
    e.updates = kept;
    let stale = if t2 >= e.last_seen {
        t2 - e.last_seen > DESYNC_THRESHOLD
    } else {
        e.last_seen - t2 > DESYNC_THRESHOLD
    };
    (applied, stale)
}

/// Insert a snapshot into one entity's queue, keeping timestamp order; a tie
/// goes after the equal timestamps, so later arrivals with the same stamp
/// apply later.
pub fn enqueue_entity(e: &mut RemoteEntity, t: i64, guy: Guy)
    requires
        old(e).wf(),
        in_range(t as int),
        guy.wf(),
    ensures
        final(e).wf(),
        final(e).id == old(e).id,
        final(e).sim_time == old(e).sim_time,
        final(e).last_seen as int == max_time(old(e).last_seen as int, t as int),
        final(e).updates@ == old(e).updates@.insert(
            insert_pos(old(e).updates@, t as int, 0),
            TimedGuy { time: t, guy },
        ),
{
    let ghost original = e.updates@;
    let n = e.updates.len();
    let mut p: usize = 0;
    while p < n && e.updates[p].time <= t
        invariant
            0 <= p <= n,
            n == e.updates@.len(),
            e.updates@ == original,
            insert_pos(original, t as int, 0) == insert_pos(original, t as int, p as int),
        decreases n - p,
    {
        p = p + 1;
    }
    proof {
        assert(insert_pos(original, t as int, p as int) == p as int);
    }
    e.updates.insert(p, TimedGuy { time: t, guy });
    if t > e.last_seen {
        e.last_seen = t;
    }
    proof {
        lemma_insert_pos_bounds(original, t as int, 0);
        let pos = insert_pos(original, t as int, 0);
        let newseq = original.insert(pos, TimedGuy { time: t, guy });
        assert forall|i: int, j: int| 0 <= i < j < newseq.len() implies newseq[i].time
            <= newseq[j].time by {
            if j < pos {
                assert(newseq[i] == original[i] && newseq[j] == original[j]);
            } else if j == pos {
                assert(newseq[i] == original[i]);
                assert(original[i].time <= t);
            } else if i < pos {
                assert(newseq[i] == original[i] && newseq[j] == original[j - 1]);
                if i == j - 1 {
                } else {
                    assert(original[i].time <= original[j - 1].time);
                }
            } else if i == pos {
                assert(newseq[j] == original[j - 1]);
                assert(original[pos].time > t);
                assert(original[pos].time <= original[j - 1].time);
            } else {
                assert(newseq[i] == original[i - 1] && newseq[j] == original[j - 1]);
            }
        }
    }
}

/// The larger of two times.
pub open spec fn max_time(a: int, b: int) -> int {
    if a < b {
        b
    } else {
        a
    }
}

/// What one advance does to one entity model: the new model, the snapshot to
/// apply, and the stale flag.
pub open spec fn advance_model(m: EntityModel, dt: int) -> (EntityModel, Option<Guy>, bool) {
    let sim2 = clip(m.sim_time + dt);
    let due = due_count(m.updates, sim2);
    (
        EntityModel { sim_time: sim2, updates: m.updates.skip(due), ..m },
        if due > 0 {
            Option::Some(m.updates[due - 1].guy)
        } else {
            Option::None::<Guy>
        },
        abs_i(sim2 - m.last_seen) > DESYNC_THRESHOLD as int,
    )
}

/// What one enqueue does to one entity model.
pub open spec fn enqueue_model(m: EntityModel, t: int, guy: Guy) -> EntityModel {
    EntityModel {
        last_seen: max_time(m.last_seen, t),
        updates: m.updates.insert(insert_pos(m.updates, t, 0), TimedGuy { time: t as i64, guy }),
        ..m
    }
}

/// The surviving entities after one advance over the first `n` models, in
/// order: stale ones are dropped.
pub open spec fn advance_entities(s: Seq<EntityModel>, dt: int, n: int) -> Seq<EntityModel>
    decreases n,
{
    if n <= 0 {
        Seq::empty()
    } else {
        let one = advance_model(s[n - 1], dt);
        advance_entities(s, dt, n - 1) + if one.2 {
            Seq::empty()
        } else {
            seq![one.0]
        }
    }
}

/// The snapshots applied by one advance over the first `n` models, in order.
pub open spec fn advance_applied(s: Seq<EntityModel>, dt: int, n: int) -> Seq<AppliedSnap>
    decreases n,
{
    if n <= 0 {
        Seq::empty()
    } else {
        let one = advance_model(s[n - 1], dt);
        advance_applied(s, dt, n - 1) + match one.1 {
            Option::Some(g) => seq![AppliedSnap { id: s[n - 1].id as i64, guy: g }],
            Option::None => Seq::empty(),
        }
    }
}

/// What `enqueue_update` does at the model level.
pub open spec fn reconcile_enqueue(s: Seq<EntityModel>, id: int, t: int, guy: Guy) -> Seq<
    EntityModel,
> {
    match find_id(s, id, 0) {
        Option::Some(i) => s.update(i, enqueue_model(s[i], t, guy)),
        Option::None => s.push(
            EntityModel {
                id,
                sim_time: clip(t - SCALE as int),
                last_seen: t,
                updates: seq![TimedGuy { time: t as i64, guy }],
            },
        ),
    }
}

/// What `despawn` does at the model level.
pub open spec fn reconcile_despawn(s: Seq<EntityModel>, id: int) -> Seq<EntityModel> {
    match find_id(s, id, 0) {
        Option::Some(i) => s.remove(i),
        Option::None => s,
    }
}

/// The ids dropped as stale by one advance over the first `n` models, in
/// order.
pub open spec fn advance_stale(s: Seq<EntityModel>, dt: int, n: int) -> Seq<i64>
    decreases n,
{
    if n <= 0 {
        Seq::empty()
    } else {
        let one = advance_model(s[n - 1], dt);
        advance_stale(s, dt, n - 1) + if one.2 {
            seq![s[n - 1].id as i64]
        } else {
            Seq::empty()
        }
    }
}

/// First entity with the given id.
pub open spec fn find_id(s: Seq<EntityModel>, id: int, k: int) -> Option<int>
    decreases s.len() - k,
{
    if k < 0 || k >= s.len() {
        Option::None
    } else if s[k].id == id {
        Option::Some(k)
    } else {
        find_id(s, id, k + 1)
    }
}

/// A failed search means no entity from `k` on carries the id.
pub proof fn lemma_find_id_none(s: Seq<EntityModel>, id: int, k: int)
    requires
        0 <= k <= s.len(),
        find_id(s, id, k) is None,
    ensures
        forall|j: int| k <= j < s.len() ==> s[j].id != id,
    decreases s.len() - k,
{
    if k < s.len() {
        lemma_find_id_none(s, id, k + 1);
    }
}

/// Advancing keeps ids: every survivor carries the id of some source entity,
/// and distinct sources keep distinct survivors.
proof fn lemma_advance_entities_ids(s: Seq<EntityModel>, dt: int, n: int)
    requires
        0 <= n <= s.len(),
        forall|i: int, j: int| 0 <= i < j < s.len() ==> s[i].id != s[j].id,
    ensures
        forall|p: int|
            0 <= p < advance_entities(s, dt, n).len() ==> exists|l: int|
                0 <= l < n && #[trigger] advance_entities(s, dt, n)[p].id == s[l].id,
        forall|p: int, q: int|
            0 <= p < q < advance_entities(s, dt, n).len() ==> advance_entities(s, dt, n)[p].id
                != advance_entities(s, dt, n)[q].id,
    decreases n,
{
    if n > 0 {
        lemma_advance_entities_ids(s, dt, n - 1);
        let prev = advance_entities(s, dt, n - 1);
        let cur = advance_entities(s, dt, n);
        let one = advance_model(s[n - 1], dt);
        if !one.2 {
            assert(cur == prev + seq![one.0]);
            assert(one.0.id == s[n - 1].id);
            assert forall|p: int|
                0 <= p < cur.len() implies exists|l: int| 0 <= l < n && #[trigger] cur[p].id
                == s[l].id by {
                if p < prev.len() {
                    assert(cur[p] == prev[p]);
                    let l = choose|l: int| 0 <= l < n - 1 && prev[p].id == s[l].id;
                    assert(0 <= l < n && cur[p].id == s[l].id);
                } else {
                    assert(cur[p].id == s[n - 1].id);
                }
            }
            assert forall|p: int, q: int| 0 <= p < q < cur.len() implies cur[p].id
                != cur[q].id by {
                if q < prev.len() {
                } else {
                    assert(cur[q].id == s[n - 1].id);
                    assert(cur[p] == prev[p]);
                    let l = choose|l: int| 0 <= l < n - 1 && prev[p].id == s[l].id;
                    assert(s[l].id != s[n - 1].id);
                }
            }
        } else {
            assert(cur == prev + Seq::<EntityModel>::empty());
            assert(cur =~= prev);
        }
    }
}

/// Per-remote-avatar buffering and playback state.
pub struct Reconciler {
    pub entities: Vec<RemoteEntity>,
}

impl Reconciler {
    pub open spec fn models(self) -> Seq<EntityModel> {
        self.entities@.map_values(|e: RemoteEntity| emodel(e))
    }

    pub open spec fn wf(self) -> bool {
        &&& forall|i: int| 0 <= i < self.entities@.len() ==> (#[trigger] self.entities@[i]).wf()
        &&& forall|i: int, j: int|
            0 <= i < j < self.entities@.len() ==> self.entities@[i].id != self.entities@[j].id
    }

    pub fn new() -> (r: Reconciler)
        ensures
            r.wf(),
            r.models().len() == 0,
    {
        Reconciler { entities: Vec::new() }
    }

    fn find(&self, id: i64) -> (r: Option<usize>)
        ensures
            find_id(self.models(), id as int, 0) == (match r {
                Option::Some(i) => Option::Some(i as int),
                Option::None => Option::None::<int>,
            }),
            match r {
                Option::Some(i) => 0 <= i < self.entities@.len() && self.entities@[i as int].id
                    == id,
                Option::None => true,
            },
    {
        let n = self.entities.len();
        let mut i: usize = 0;
        while i < n
            invariant
                0 <= i <= n,
                n == self.entities@.len(),
                find_id(self.models(), id as int, 0) == find_id(self.models(), id as int, i as int),
            decreases n - i,
        {
            if self.entities[i].id == id {
                return Option::Some(i);
            }
            i = i + 1;
        }
        Option::None
    }

    /// Buffer a remote snapshot; an unknown id starts a fresh entity whose
    /// tracked clock begins one second behind the snapshot.
    pub fn enqueue_update(&mut self, id: i64, t: i64, guy: Guy)
        requires
            old(self).wf(),
            in_range(t as int),
            guy.wf(),
        ensures
            final(self).wf(),
            match find_id(old(self).models(), id as int, 0) {
                Option::Some(i) => final(self).models() == old(self).models().update(
                    i,
                    enqueue_model(old(self).models()[i], t as int, guy),
                ),
                Option::None => final(self).models() == old(self).models().push(
                    EntityModel {
                        id: id as int,
                        sim_time: clip(t - SCALE as int),
                        last_seen: t as int,
                        updates: seq![TimedGuy { time: t, guy }],
                    },
                ),
            },
    {
        match self.find(id) {
            Option::Some(i) => {
                let mut e = self.entities.remove(i);
                enqueue_entity(&mut e, t, guy);
                self.entities.insert(i, e);
                proof {
                    assert(self.entities@ =~= old(self).entities@.update(i as int, e));
                    assert(self.models() =~= old(self).models().update(
                        i as int,
                        enqueue_model(old(self).models()[i as int], t as int, guy),
                    ));
                }
            },
            Option::None => {
                let fresh = RemoteEntity {
                    id,
                    sim_time: crate::fx::fx_sub(t, SCALE),
                    last_seen: t,
                    updates: Vec::new(),
                };
                let mut fresh = fresh;
                fresh.updates.push(TimedGuy { time: t, guy });
                self.entities.push(fresh);
                proof {
                    assert(fresh.updates@ =~= seq![TimedGuy { time: t, guy }]);
                    assert(self.models() =~= old(self).models().push(emodel(fresh)));
                    lemma_find_id_none(old(self).models(), id as int, 0);
                    assert forall|i: int|
                        0 <= i < old(self).entities@.len() implies (#[trigger] old(
                        self,
                    ).entities@[i]).id != id by {
                        assert(old(self).models()[i] == emodel(old(self).entities@[i]));
                        assert(old(self).models()[i].id != id as int);
                    }
                }
            },
        }
    }

    /// Drop a remote entity on an explicit despawn, whatever its queue holds.
    pub fn despawn(&mut self, id: i64)
        requires
            old(self).wf(),
        ensures
            final(self).wf(),
            match find_id(old(self).models(), id as int, 0) {
                Option::Some(i) => final(self).models() == old(self).models().remove(i),
                Option::None => final(self).models() == old(self).models(),
            },
    {
        match self.find(id) {
            Option::Some(i) => {
                self.entities.remove(i);
                proof {
                    assert(self.models() =~= old(self).models().remove(i as int));
                }
            },
            Option::None => {},
        }
    }

    /// One tick of playback: every tracked clock advances by `dt`, every due
    /// snapshot is applied in timestamp order (the returned list holds the
    /// last due snapshot per entity), and stale entities are dropped, their
    /// ids reported so the session can remove the avatars too.
    pub fn advance(&mut self, dt: i64) -> (r: (Vec<AppliedSnap>, Vec<i64>))
        requires
            old(self).wf(),
            0 <= dt,
            in_range(dt as int),
        ensures
            final(self).wf(),
            final(self).models() == advance_entities(
                old(self).models(),
                dt as int,
                old(self).models().len() as int,
            ),
            r.0@ == advance_applied(
                old(self).models(),
                dt as int,
                old(self).models().len() as int,
            ),
            r.1@ == advance_stale(
                old(self).models(),
                dt as int,
                old(self).models().len() as int,
            ),
            forall|j: int| 0 <= j < r.0@.len() ==> (#[trigger] r.0@[j].guy).wf(),
    {
        let ghost om = old(self).models();
        let mut src: Vec<RemoteEntity> = Vec::new();
        core::mem::swap(&mut src, &mut self.entities);
        let mut out: Vec<AppliedSnap> = Vec::new();
        let mut dropped: Vec<i64> = Vec::new();
        let ghost total = om.len() as int;
        let mut k: usize = 0;
        let n0 = src.len();
        proof {
            assert(src@.map_values(|e: RemoteEntity| emodel(e)) =~= om);
            assert(total == n0 as int);
        }
        while src.len() > 0
            invariant
                0 <= k,
                k as int + src@.len() == total,
                total <= usize::MAX,
                forall|i: int, j: int| 0 <= i < j < om.len() ==> om[i].id != om[j].id,
                om.len() == total,
                forall|j: int| 0 <= j < src@.len() ==> (#[trigger] src@[j]).wf(),
                forall|j: int|
                    0 <= j < src@.len() ==> emodel(#[trigger] src@[j]) == om[k as int + j],
                0 <= dt,
                in_range(dt as int),
                self.entities@.map_values(|e: RemoteEntity| emodel(e)) =~= advance_entities(
                    om,
                    dt as int,
                    k as int,
                ),
                forall|j: int|
                    0 <= j < self.entities@.len() ==> (#[trigger] self.entities@[j]).wf(),
                out@ =~= advance_applied(om, dt as int, k as int),
                dropped@ =~= advance_stale(om, dt as int, k as int),
                forall|j: int| 0 <= j < out@.len() ==> (#[trigger] out@[j].guy).wf(),
            decreases src@.len(),
        {
            let ghost pre_models = self.entities@.map_values(|e: RemoteEntity| emodel(e));
            let ghost pre_src = src@;
            let mut e = src.remove(0);
            proof {
                assert(emodel(e) == om[k as int]);
                assert forall|j: int| 0 <= j < src@.len() implies emodel(#[trigger] src@[j])
                    == om[k as int + 1 + j] by {
                    assert(src@[j] == pre_src[j + 1]);
                }
                assert forall|j: int| 0 <= j < src@.len() implies (#[trigger] src@[j]).wf() by {
                    assert(src@[j] == pre_src[j + 1]);
                }
            }
            let ghost e0 = e;
            let (app, stale) = advance_entity(&mut e, dt);
            match app {
                Option::Some(g) => {
                    proof {
                        lemma_due_prefix(e0.updates@, e.sim_time as int);
                        assert(e0.updates@[due_count(e0.updates@, e.sim_time as int) - 1].guy.wf());
                    }
                    out.push(AppliedSnap { id: e.id, guy: g });
                },
                Option::None => {},
            }
            if !stale {
                self.entities.push(e);
                proof {
                    assert(self.entities@.map_values(|x: RemoteEntity| emodel(x)) =~= pre_models.push(
                        emodel(e),
                    ));
                }
            } else {
                dropped.push(e.id);
            }
            k = k + 1;
            proof {
                assert(self.entities@.map_values(|x: RemoteEntity| emodel(x)) =~= advance_entities(
                    om,
                    dt as int,
                    k as int,
                ));
                assert(out@ =~= advance_applied(om, dt as int, k as int));
                assert(dropped@ =~= advance_stale(om, dt as int, k as int));
            }
        }
        proof {
            assert(self.models() =~= advance_entities(om, dt as int, total));
            lemma_advance_entities_ids(om, dt as int, total);
            assert forall|i: int, j: int|
                0 <= i < j < self.entities@.len() implies self.entities@[i].id
                != self.entities@[j].id by {
                assert(self.models()[i].id == self.entities@[i].id as int);
                assert(self.models()[j].id == self.entities@[j].id as int);
            }
        }
        (out, dropped)
    }
}

/// Out-of-order arrival, later write wins: a snapshot stamped `t2` arrives
/// before one stamped `t1 < t2` for the same remote id.  Since snapshots are
/// queued and applied in timestamp order, once the tracked clock has reached
/// `t2` the visible state is the `t2` snapshot, not the late-arriving `t1`.
pub proof fn lemma_later_snapshot_wins(m: EntityModel, t1: int, g1: Guy, t2: int, g2: Guy, dt: int)
    requires
        m.updates.len() == 0,
        in_range(t1),
        in_range(t2),
        t1 < t2,
        clip(m.sim_time + dt) >= t2,
    ensures
        advance_model(enqueue_model(enqueue_model(m, t2, g2), t1, g1), dt).1 == Option::Some(g2),
{
    let s2 = TimedGuy { time: t2 as i64, guy: g2 };
    let s1 = TimedGuy { time: t1 as i64, guy: g1 };
    let m1 = enqueue_model(m, t2, g2);
    assert(insert_pos(m.updates, t2, 0) == 0);
    assert(m1.updates =~= seq![s2]);
    let m2 = enqueue_model(m1, t1, g1);
    assert(insert_pos(m1.updates, t1, 0) == 0);
    assert(m2.updates =~= seq![s1, s2]);
    let sim2 = clip(m2.sim_time + dt);
    assert(m2.sim_time == m.sim_time);
    assert(insert_pos(m2.updates, sim2, 2) == 2);
    assert(insert_pos(m2.updates, sim2, 1) == 2);
    assert(insert_pos(m2.updates, sim2, 0) == 2);
    assert(due_count(m2.updates, sim2) == 2);
    assert(advance_model(m2, dt).1 == Option::Some(m2.updates[1].guy));
}

/// Self-healing against dead connections: an entity whose tracked clock has
/// drifted more than the desync threshold from the newest snapshot ever
/// received is marked stale by the next advance, and no entity with its id
/// survives that advance.
pub proof fn lemma_stale_entity_removed(s: Seq<EntityModel>, dt: int, n: int, i: int)
    requires
        0 <= i < n <= s.len(),
        forall|p: int, q: int| 0 <= p < q < s.len() ==> s[p].id != s[q].id,
        abs_i(clip(s[i].sim_time + dt) - s[i].last_seen) > DESYNC_THRESHOLD as int,
    ensures
        advance_model(s[i], dt).2,
        forall|p: int|
            0 <= p < advance_entities(s, dt, n).len() ==> #[trigger] advance_entities(
                s,
                dt,
                n,
            )[p].id != s[i].id,
    decreases n,
{
    if n - 1 > i {
        lemma_stale_entity_removed(s, dt, n - 1, i);
    }
    let prev = advance_entities(s, dt, n - 1);
    let cur = advance_entities(s, dt, n);
    let one = advance_model(s[n - 1], dt);
    if n - 1 == i {
        assert(one.2);
        assert(cur =~= prev);
        if i > 0 {
            lemma_advance_entities_no_new_ids(s, dt, n - 1, i);
        } else {
            assert(prev =~= Seq::<EntityModel>::empty());
        }
    } else {
        if !one.2 {
            assert(cur == prev + seq![one.0]);
            assert(one.0.id == s[n - 1].id);
            assert(s[n - 1].id != s[i].id);
        } else {
            assert(cur =~= prev);
        }
    }
}

/// A stale entity's id is reported among the dropped ids, so the session can
/// remove its avatar.
pub proof fn lemma_stale_id_listed(s: Seq<EntityModel>, dt: int, n: int, i: int)
    requires
        0 <= i < n <= s.len(),
        abs_i(clip(s[i].sim_time + dt) - s[i].last_seen) > DESYNC_THRESHOLD as int,
    ensures
        advance_stale(s, dt, n).contains(s[i].id as i64),
    decreases n,
{
    let cur = advance_stale(s, dt, n);
    if n - 1 == i {
        let prev = advance_stale(s, dt, n - 1);
        assert(advance_model(s[i], dt).2);
        assert(cur == prev + seq![s[i].id as i64]);
        assert(cur[prev.len() as int] == s[i].id as i64);
    } else {
        lemma_stale_id_listed(s, dt, n - 1, i);
        let prev = advance_stale(s, dt, n - 1);
        let w = choose|w: int| 0 <= w < prev.len() && prev[w] == s[i].id as i64;
        assert(cur[w] == s[i].id as i64);
    }
}

/// No survivor of an advance over the first `n` entities carries the id of
/// an entity at or past `n`.
proof fn lemma_advance_entities_no_new_ids(s: Seq<EntityModel>, dt: int, n: int, i: int)
    requires
        0 <= n <= i < s.len(),
        forall|p: int, q: int| 0 <= p < q < s.len() ==> s[p].id != s[q].id,
    ensures
        forall|p: int|
            0 <= p < advance_entities(s, dt, n).len() ==> #[trigger] advance_entities(
                s,
                dt,
                n,
            )[p].id != s[i].id,
    decreases n,
{
    if n > 0 {
        lemma_advance_entities_no_new_ids(s, dt, n - 1, i);
        let prev = advance_entities(s, dt, n - 1);
        let cur = advance_entities(s, dt, n);
        let one = advance_model(s[n - 1], dt);
        if !one.2 {
            assert(cur == prev + seq![one.0]);
            assert(one.0.id == s[n - 1].id);
        } else {
            assert(cur =~= prev);
        }
    }
}

} // verus!
