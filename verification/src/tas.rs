//! Deterministic record, rewind and replay.
//!
//! While recording, every tick appends `(time, snapshot)` to an append-only
//! timeline — unless the facility is paused (the simulation is frozen
//! entirely) or a rewind is in progress.  Recording again after a rewind
//! first discards the timeline beyond the cursor: once you rewind and act,
//! the old future is gone.  Save states capture the clock, the timeline and
//! the snapshot; loading one is a full replacement, never a merge.

use vstd::prelude::*;
use crate::fx::{clip, in_range};
use crate::guy::Guy;
use crate::net::{TimedGuy, updates_sorted, due_count, insert_pos, lemma_due_prefix};

verus! {

/// A pushed save state: the clock, the whole timeline, and the snapshot.
pub struct SaveState {
    pub time: i64,
    pub timeline: Vec<TimedGuy>,
    pub guy: Guy,
}

/// Ghost image of a save state.
pub ghost struct SaveModel {
    pub time: int,
    pub timeline: Seq<TimedGuy>,
    pub guy: Guy,
}

pub open spec fn smodel(s: SaveState) -> SaveModel {
    SaveModel { time: s.time as int, timeline: s.timeline@, guy: s.guy }
}

/// Ghost image of the whole facility.
pub ghost struct TasModel {
    pub time: int,
    pub timeline: Seq<TimedGuy>,
    pub saves: Seq<SaveModel>,
    pub cursor: Option<int>,
    pub paused: bool,
    pub replay: Option<int>,
}

/// A well-formed recorded timeline: sorted, in range, and within the clock.
pub open spec fn timeline_wf(tl: Seq<TimedGuy>, bound: int) -> bool {
    &&& updates_sorted(tl)
    &&& forall|i: int|
        0 <= i < tl.len() ==> in_range(#[trigger] tl[i].time as int) && tl[i].guy.wf()
            && tl[i].time <= bound
}

/// A well-formed save state.
pub open spec fn save_wf(s: SaveState) -> bool {
    &&& in_range(s.time as int)
    &&& s.guy.wf()
    &&& timeline_wf(s.timeline@, s.time as int)
}

/// The record/rewind/replay facility for one avatar.
pub struct Tas {
    /// Recording clock.
    pub time: i64,
    /// Recorded `(time, snapshot)` history, nondecreasing in time.
    pub timeline: Vec<TimedGuy>,
    pub saved_states: Vec<SaveState>,
    /// A rewind in progress: the cursor position.
    pub rewind_cursor: Option<i64>,
    /// Pause freezes the simulation entirely.
    pub paused: bool,
    /// Replay clock, when replaying a finished recording.
    pub replay_time: Option<i64>,
}

impl Tas {
    pub open spec fn model(self) -> TasModel {
        TasModel {
            time: self.time as int,
            timeline: self.timeline@,
            saves: self.saved_states@.map_values(|s: SaveState| smodel(s)),
            cursor: match self.rewind_cursor {
                Option::Some(c) => Option::Some(c as int),
                Option::None => Option::None,
            },
            paused: self.paused,
            replay: match self.replay_time {
                Option::Some(t) => Option::Some(t as int),
                Option::None => Option::None,
            },
        }
    }

    pub open spec fn wf(self) -> bool {
        &&& in_range(self.time as int)
        &&& timeline_wf(self.timeline@, self.time as int)
        &&& match self.rewind_cursor {
            Option::Some(c) => in_range(c as int),
            Option::None => true,
        }
        &&& match self.replay_time {
            Option::Some(t) => in_range(t as int),
            Option::None => true,
        }
        &&& forall|i: int| 0 <= i < self.saved_states@.len() ==> save_wf(#[trigger] self.saved_states@[i])
    }

    pub fn new() -> (r: Tas)
        ensures
            r.wf(),
            r.model().time == 0,
            r.model().timeline.len() == 0,
            r.model().saves.len() == 0,
            r.model().cursor is None,
            !r.model().paused,
            r.model().replay is None,
    {
        Tas {
            time: 0,
            timeline: Vec::new(),
            saved_states: Vec::new(),
            rewind_cursor: Option::None,
            paused: false,
            replay_time: Option::None,
        }
    }
}

/// What one recorded tick does: paused means frozen; a pending rewind first
/// discards the future beyond the cursor; then the clock advances and the
/// snapshot is appended.
pub open spec fn record_model(m: TasModel, dt: int, guy: Guy) -> TasModel {
    if m.paused {
        m
    } else {
        let base = match m.cursor {
            Option::Some(c) => TasModel {
                time: c,
                timeline: m.timeline.take(due_count(m.timeline, c)),
                cursor: Option::None,
                ..m
            },
            Option::None => m,
        };
        let t2 = clip(base.time + dt);
        TasModel {
            time: t2,
            timeline: base.timeline.push(TimedGuy { time: t2 as i64, guy }),
            ..base
        }
    }
}

/// What a save-state push does.
pub open spec fn save_model(m: TasModel, guy: Guy) -> TasModel {
    TasModel {
        saves: m.saves.push(SaveModel { time: m.time, timeline: m.timeline, guy }),
        ..m
    }
}

/// What restoring save `i` does: full replacement of clock and timeline, and
/// the stored snapshot comes back with the current identity.
pub open spec fn load_model(m: TasModel, i: int, current: Guy) -> (TasModel, Option<Guy>) {
    if 0 <= i < m.saves.len() {
        (
            TasModel {
                time: m.saves[i].time,
                timeline: m.saves[i].timeline,
                cursor: Option::None,
                ..m
            },
            Option::Some(Guy { id: current.id, ..m.saves[i].guy }),
        )
    } else {
        (m, Option::None)
    }
}

/// Saving and immediately loading reproduces the exact snapshot and resets
/// the recording clock to the saved time: the round trip is the identity.
pub proof fn lemma_save_load_roundtrip(m: TasModel, guy: Guy)
    ensures
        load_model(save_model(m, guy), m.saves.len() as int, guy).1 == Option::Some(guy),
        load_model(save_model(m, guy), m.saves.len() as int, guy).0.time == m.time,
        load_model(save_model(m, guy), m.saves.len() as int, guy).0.timeline == m.timeline,
{
    let m2 = save_model(m, guy);
    assert(m2.saves[m.saves.len() as int] == SaveModel { time: m.time, timeline: m.timeline, guy });
    assert(load_model(m2, m.saves.len() as int, guy).1 == Option::Some(
        Guy { id: guy.id, ..guy },
    ));
    assert(Guy { id: guy.id, ..guy } == guy);
}

/// Recording after a rewind keeps exactly the ticks at or before the cursor
/// and appends the new one after them: the old future is discarded.
pub proof fn lemma_rewind_truncates(m: TasModel, dt: int, guy: Guy, c: int)
    requires
        !m.paused,
        m.cursor == Option::Some(c),
        updates_sorted(m.timeline),
    ensures
        ({
            let r = record_model(m, dt, guy);
            let keep = due_count(m.timeline, c);
            &&& r.timeline.len() == keep + 1
            &&& forall|i: int| 0 <= i < keep ==> r.timeline[i] == m.timeline[i]
            &&& forall|i: int| 0 <= i < keep ==> #[trigger] r.timeline[i].time <= c
            &&& keep < m.timeline.len() ==> m.timeline[keep].time > c
            &&& r.timeline[keep as int].guy == guy
            &&& r.time == clip(c + dt)
            &&& r.cursor is None
        }),
{
    lemma_due_prefix(m.timeline, c);
}

impl Tas {
    /// Record one tick: see `record_model`.
    pub fn record(&mut self, dt: i64, guy: Guy)
        requires
            old(self).wf(),
            0 <= dt,
            in_range(dt as int),
            guy.wf(),
            old(self).replay_time is None,
            match old(self).rewind_cursor {
                Option::Some(c) => c <= old(self).time,
                Option::None => true,
            },
        ensures
            final(self).wf(),
            final(self).model() == record_model(old(self).model(), dt as int, guy),
    {
        if self.paused {
            return ;
        }
        match self.rewind_cursor {
            Option::Some(c) => {
                proof {
                    lemma_due_prefix(self.timeline@, c as int);
                }
                let keep = timeline_due(&self.timeline, c);
                self.timeline.truncate(keep);
                self.time = c;
                self.rewind_cursor = Option::None;
                proof {
                    assert(self.timeline@ =~= old(self).timeline@.take(
                        due_count(old(self).timeline@, c as int),
                    ));
                }
            },
            Option::None => {},
        }
        let t2 = crate::fx::fx_add(self.time, dt);
        self.time = t2;
        self.timeline.push(TimedGuy { time: t2, guy });
    }

    /// Push a save state.
    pub fn save_state(&mut self, guy: Guy)
        requires
            old(self).wf(),
            guy.wf(),
        ensures
            final(self).wf(),
            final(self).model() == save_model(old(self).model(), guy),
    {
        let tl = copy_timeline(&self.timeline);
        self.saved_states.push(SaveState { time: self.time, timeline: tl, guy });
        proof {
            assert(final(self).model().saves =~= save_model(old(self).model(), guy).saves);
        }
    }

    /// Restore a save state by index; an unknown index changes nothing.  The
    /// returned snapshot, if any, replaces the avatar wholesale, keeping only
    /// its identity.
    pub fn load_state(&mut self, index: usize, current: Guy) -> (r: Option<Guy>)
        requires
            old(self).wf(),
        ensures
            final(self).wf(),
            (final(self).model(), r) == load_model(
                old(self).model(),
                index as int,
                current,
            ),
    {
        if index < self.saved_states.len() {
            let t = self.saved_states[index].time;
            let tl = copy_timeline(&self.saved_states[index].timeline);
            let mut guy = self.saved_states[index].guy;
            guy.id = current.id;
            self.time = t;
            self.timeline = tl;
            self.rewind_cursor = Option::None;
            proof {
                assert(final(self).model().saves =~= old(self).model().saves);
            }
            Option::Some(guy)
        } else {
            Option::None
        }
    }

    /// Begin or continue a rewind: place the cursor, and hand back the
    /// snapshot at the nearest not-yet-passed timeline entry (the first one
    /// at or after the cursor), with the avatar's cosmetic identity kept.
    pub fn rewind_to(&mut self, target: i64, current: Guy) -> (r: Option<Guy>)
        requires
            old(self).wf(),
            in_range(target as int),
        ensures
            final(self).wf(),
            final(self).rewind_cursor == Option::Some(target),
            final(self).time == old(self).time,
            final(self).timeline@ == old(self).timeline@,
            final(self).saved_states@ == old(self).saved_states@,
            final(self).paused == old(self).paused,
            final(self).replay_time == old(self).replay_time,
            ({
                let pos = due_count(old(self).timeline@, target - 1);
                r == (if pos < old(self).timeline@.len() {
                    Option::Some(
                        Guy {
                            look: current.look,
                            ..old(self).timeline@[pos].guy
                        },
                    )
                } else {
                    Option::None::<Guy>
                })
            }),
    {
        proof {
            lemma_due_prefix(self.timeline@, target as int - 1);
        }
        self.rewind_cursor = Option::Some(target);
        let pos = timeline_due(&self.timeline, target - 1);
        if pos < self.timeline.len() {
            let mut guy = self.timeline[pos].guy;
            guy.look = current.look;
            Option::Some(guy)
        } else {
            Option::None
        }
    }

    /// Pause or resume; pausing freezes the avatar's simulation entirely.
    pub fn set_paused(&mut self, paused: bool)
        requires
            old(self).wf(),
        ensures
            final(self).wf(),
            *final(self) == (Tas { paused, ..*old(self) }),
    {
        self.paused = paused;
    }

    /// Start replaying the recording from its beginning.
    pub fn start_replay(&mut self)
        requires
            old(self).wf(),
        ensures
            final(self).wf(),
            *final(self) == (Tas { replay_time: Option::Some(0i64), ..*old(self) }),
    {
        self.replay_time = Option::Some(0);
    }

    /// One replay tick: the replay clock advances at the normal rate and the
    /// recorded snapshot due at the new clock (the last one at or before it)
    /// drives the avatar directly.
    pub fn replay_tick(&mut self, dt: i64) -> (r: Option<Guy>)
        requires
            old(self).wf(),
            0 <= dt,
            in_range(dt as int),
            old(self).replay_time is Some,
        ensures
            final(self).wf(),
            final(self).replay_time == Option::Some(
                clip(old(self).replay_time->Some_0 + dt) as i64,
            ),
            final(self).time == old(self).time,
            final(self).timeline@ == old(self).timeline@,
            final(self).saved_states@ == old(self).saved_states@,
            ({
                let t2 = clip(old(self).replay_time->Some_0 + dt);
                let due = due_count(old(self).timeline@, t2);
                r == (if due > 0 {
                    Option::Some(old(self).timeline@[due - 1].guy)
                } else {
                    Option::None::<Guy>
                })
            }),
    {
        let t0 = match self.replay_time {
            Option::Some(t) => t,
            Option::None => 0,
        };
        let t2 = crate::fx::fx_add(t0, dt);
        self.replay_time = Option::Some(t2);
        proof {
            lemma_due_prefix(self.timeline@, t2 as int);
        }
        let due = timeline_due(&self.timeline, t2);
        if due > 0 {
            Option::Some(self.timeline[due - 1].guy)
        } else {
            Option::None
        }
    }
}

/// Number of timeline entries with times at or before `t`.
fn timeline_due(timeline: &Vec<TimedGuy>, t: i64) -> (r: usize)
    requires
        updates_sorted(timeline@),
    ensures
        r as int == due_count(timeline@, t as int),
        r <= timeline@.len(),
{
    let n = timeline.len();
    let mut k: usize = 0;
    while k < n && timeline[k].time <= t
        invariant
            0 <= k <= n,
            n == timeline@.len(),
            updates_sorted(timeline@),
            insert_pos(timeline@, t as int, 0) == insert_pos(timeline@, t as int, k as int),
        decreases n - k,
    {
        k = k + 1;
    }
    proof {
        assert(insert_pos(timeline@, t as int, k as int) == k as int);
    }
    k
}

/// An exact copy of a recorded timeline.
fn copy_timeline(v: &Vec<TimedGuy>) -> (r: Vec<TimedGuy>)
    ensures
        r@ == v@,
{
    let n = v.len();
    let mut out: Vec<TimedGuy> = Vec::new();
    let mut i: usize = 0;
    while i < n
        invariant
            0 <= i <= n,
            n == v@.len(),
            out@ == v@.subrange(0, i as int),
        decreases n - i,
    {
        out.push(v[i]);
        i = i + 1;
    }
    proof {
        assert(out@ =~= v@);
    }
    out
}

} // verus!
