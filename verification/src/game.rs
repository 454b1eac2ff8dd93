//! The per-client session: local avatars, the reconciler, and the wire
//! protocol around them.
//!
//! The session owns the avatar collection exclusively; network messages are
//! staged and applied only inside the per-tick pass, so a tick's network
//! effects are fully determined before physics runs.

use vstd::prelude::*;
use vstd::pervasive::VecAdditionalExecFns;
use crate::fx::{clip, in_range};
use crate::guy::{Config, Event, Guy, Input};
use crate::level::LevelInfo;
use crate::vec2::Vec2;
use crate::net::{AppliedSnap, EntityModel, Reconciler, advance_applied, advance_entities, advance_stale};
use crate::physics::{guy_compat, tick_spec, update_guy};

verus! {

/// Messages from a client to the server.
#[derive(Clone, Copy, PartialEq, Eq, Structural, Debug)]
pub enum ClientMessage {
    Ping,
    Update { simulation_time: i64, guy: Guy },
    Despawn,
    Emote { index: usize },
    ForceReset,
}

/// Messages from the server to a client.
#[derive(Clone, Copy, PartialEq, Eq, Structural, Debug)]
pub enum ServerMessage {
    Pong,
    ForceReset,
    ClientId { id: i64 },
    UpdateGuy { simulation_time: i64, guy: Guy },
    Despawn { id: i64 },
    Emote { id: i64, index: usize },
}

/// Ghost image of a session.
pub ghost struct GameModel {
    pub guys: Seq<Guy>,
    pub my_guy: Option<i64>,
    pub simulation_time: int,
    pub entities: Seq<EntityModel>,
}

/// One client's session state.
pub struct Game {
    pub config: Config,
    pub level: LevelInfo,
    /// Every avatar, local and remote; ids are unique.
    pub guys: Vec<Guy>,
    pub my_guy: Option<i64>,
    pub client_id: i64,
    pub simulation_time: i64,
    pub reconciler: Reconciler,
}

/// First avatar with the given id.
pub open spec fn guy_index(guys: Seq<Guy>, id: int, k: int) -> Option<int>
    decreases guys.len() - k,
{
    if k < 0 || k >= guys.len() {
        Option::None
    } else if guys[k].id == id {
        Option::Some(k)
    } else {
        guy_index(guys, id, k + 1)
    }
}

/// A snapshot's cannon timer is dropped when it points outside the local
/// level's cannon list: remote state never indexes out of bounds here.
pub open spec fn sanitize_timer(g: Guy, n_cannons: int) -> Guy {
    match g.cannon_timer {
        Option::Some(ct) => if ct.cannon_index < n_cannons {
            g
        } else {
            Guy { cannon_timer: Option::None, ..g }
        },
        Option::None => g,
    }
}

/// Insert-or-replace an avatar wholesale, by id.
pub open spec fn put_guy(guys: Seq<Guy>, guy: Guy) -> Seq<Guy> {
    match guy_index(guys, guy.id as int, 0) {
        Option::Some(i) => guys.update(i, guy),
        Option::None => guys.push(guy),
    }
}

/// Replace remote avatars wholesale with the first `n` applied snapshots, in
/// order.
pub open spec fn apply_snaps(guys: Seq<Guy>, snaps: Seq<AppliedSnap>, n: int, n_cannons: int) -> Seq<Guy>
    decreases n,
{
    if n <= 0 {
        guys
    } else {
        put_guy(
            apply_snaps(guys, snaps, n - 1, n_cannons),
            sanitize_timer(Guy { id: snaps[n - 1].id, ..snaps[n - 1].guy }, n_cannons),
        )
    }
}

/// Remove the avatar with the given id, if present.
pub open spec fn remove_guy(guys: Seq<Guy>, id: int) -> Seq<Guy> {
    match guy_index(guys, id, 0) {
        Option::Some(i) => guys.remove(i),
        Option::None => guys,
    }
}

/// The avatars left after dropping every id a stale entity vanished with,
/// in order.
pub open spec fn drop_ids(guys: Seq<Guy>, ids: Seq<i64>, n: int) -> Seq<Guy>
    decreases n,
{
    if n <= 0 {
        Seq::empty()
    } else {
        drop_ids(guys, ids, n - 1) + if ids.contains(guys[n - 1].id) {
            Seq::empty()
        } else {
            seq![guys[n - 1]]
        }
    }
}

/// Dropping ids keeps a subsequence of the avatars, and none of the
/// survivors carries a dropped id.
pub proof fn lemma_drop_ids(guys: Seq<Guy>, ids: Seq<i64>, n: int)
    requires
        0 <= n <= guys.len(),
    ensures
        forall|p: int|
            0 <= p < drop_ids(guys, ids, n).len() ==> exists|l: int|
                0 <= l < n && #[trigger] drop_ids(guys, ids, n)[p] == guys[l],
        forall|p: int|
            0 <= p < drop_ids(guys, ids, n).len() ==> !ids.contains(
                #[trigger] drop_ids(guys, ids, n)[p].id,
            ),
    decreases n,
{
    if n > 0 {
        lemma_drop_ids(guys, ids, n - 1);
        let prev = drop_ids(guys, ids, n - 1);
        let cur = drop_ids(guys, ids, n);
        if !ids.contains(guys[n - 1].id) {
            assert(cur == prev + seq![guys[n - 1]]);
            assert forall|p: int|
                0 <= p < cur.len() implies exists|l: int| 0 <= l < n && #[trigger] cur[p]
                == guys[l] by {
                if p < prev.len() {
                    assert(cur[p] == prev[p]);
                    let l = choose|l: int| 0 <= l < n - 1 && prev[p] == guys[l];
                    assert(0 <= l < n && cur[p] == guys[l]);
                } else {
                    assert(cur[p] == guys[n - 1]);
                }
            }
            assert forall|p: int|
                0 <= p < cur.len() implies !ids.contains(#[trigger] cur[p].id) by {
                if p < prev.len() {
                    assert(cur[p] == prev[p]);
                }
            }
        } else {
            assert(cur =~= prev);
        }
    }
}

/// Membership test against the dropped-id list.
fn id_listed(ids: &Vec<i64>, id: i64) -> (r: bool)
    ensures
        r == ids@.contains(id),
{
    let n = ids.len();
    let mut i: usize = 0;
    while i < n
        invariant
            0 <= i <= n,
            n == ids@.len(),
            forall|k: int| 0 <= k < i ==> ids@[k] != id,
        decreases n - i,
    {
        if ids[i] == id {
            return true;
        }
        i = i + 1;
    }
    assert(!ids@.contains(id));
    false
}

/// What one staged server message does to a session, and what it replies.
///
/// A liveness `Pong` triggers a `Ping` and a re-send of the local state; a
/// forced reset respawns and tells the server to drop the old body; a remote
/// snapshot is buffered (malformed ones are dropped, never applied); an
/// explicit despawn removes the avatar and its buffering immediately,
/// whatever its queue holds.  Id assignment and emotes carry no simulation
/// state.
pub open spec fn step_message(
    m: GameModel,
    msg: ServerMessage,
    client_id: i64,
    spawn: Vec2,
    cfg: Config,
) -> (GameModel, Seq<ClientMessage>) {
    match msg {
        ServerMessage::Pong => (
            m,
            seq![ClientMessage::Ping] + (match m.my_guy {
                Option::Some(id) => match guy_index(m.guys, id as int, 0) {
                    Option::Some(i) => seq![
                        ClientMessage::Update {
                            simulation_time: m.simulation_time as i64,
                            guy: m.guys[i],
                        },
                    ],
                    Option::None => Seq::empty(),
                },
                Option::None => Seq::empty(),
            }),
        ),
        ServerMessage::ForceReset => (
            GameModel {
                guys: put_guy(m.guys, crate::guy::spawn_spec(client_id, spawn, cfg)),
                my_guy: Option::Some(client_id),
                simulation_time: 0,
                ..m
            },
            seq![ClientMessage::Despawn],
        ),
        ServerMessage::ClientId { id: _ } => (m, Seq::empty()),
        ServerMessage::UpdateGuy { simulation_time, guy } => (
            if guy.wf() && in_range(simulation_time as int) {
                GameModel {
                    entities: crate::net::reconcile_enqueue(
                        m.entities,
                        guy.id as int,
                        simulation_time as int,
                        guy,
                    ),
                    ..m
                }
            } else {
                m
            },
            Seq::empty(),
        ),
        ServerMessage::Despawn { id } => (
            GameModel {
                guys: remove_guy(m.guys, id as int),
                entities: crate::net::reconcile_despawn(m.entities, id as int),
                ..m
            },
            Seq::empty(),
        ),
        ServerMessage::Emote { id: _, index: _ } => (m, Seq::empty()),
    }
}

/// The staged messages of one tick, applied in arrival order, with the
/// replies they produce.
pub open spec fn conn_fold(
    m: GameModel,
    msgs: Seq<ServerMessage>,
    client_id: i64,
    spawn: Vec2,
    cfg: Config,
    n: int,
) -> (GameModel, Seq<ClientMessage>)
    decreases n,
{
    if n <= 0 {
        (m, Seq::empty())
    } else {
        let prev = conn_fold(m, msgs, client_id, spawn, cfg, n - 1);
        let st = step_message(prev.0, msgs[n - 1], client_id, spawn, cfg);
        (st.0, prev.1 + st.1)
    }
}

/// Every avatar advanced by one physics tick, in order.
pub open spec fn tick_all(
    guys: Seq<Guy>,
    surfaces: Seq<crate::surface::Surface>,
    tiles: Seq<crate::tile::Tile>,
    objects: Seq<crate::level::Object>,
    cannons: Seq<crate::level::Cannon>,
    portals: Seq<crate::level::Portal>,
    finish: Vec2,
    cfg: Config,
    dt: int,
    n: int,
) -> Seq<Guy>
    decreases n,
{
    if n <= 0 {
        Seq::empty()
    } else {
        tick_all(guys, surfaces, tiles, objects, cannons, portals, finish, cfg, dt, n - 1).push(
            tick_spec(guys[n - 1], surfaces, tiles, objects, cannons, portals, finish, cfg, dt),
        )
    }
}

/// The local clock advances unless the local avatar exists and has finished.
pub open spec fn clock_advances(m: GameModel) -> bool {
    match m.my_guy {
        Option::Some(id) => match guy_index(m.guys, id as int, 0) {
            Option::Some(i) => !m.guys[i].progress.finished,
            Option::None => true,
        },
        Option::None => true,
    }
}

impl Game {
    pub open spec fn model(self) -> GameModel {
        GameModel {
            guys: self.guys@,
            my_guy: self.my_guy,
            simulation_time: self.simulation_time as int,
            entities: self.reconciler.models(),
        }
    }

    pub open spec fn wf(self) -> bool {
        &&& self.config.wf()
        &&& self.level.wf()
        &&& forall|i: int|
            0 <= i < self.guys@.len() ==> (#[trigger] self.guys@[i]).wf() && guy_compat(
                self.guys@[i],
                self.level.cannons@,
            )
        &&& in_range(self.simulation_time as int)
        &&& self.reconciler.wf()
    }

    pub fn new(config: Config, level: LevelInfo, client_id: i64) -> (r: Game)
        requires
            config.wf(),
            level.wf(),
        ensures
            r.wf(),
            r.model().guys.len() == 0,
            r.model().my_guy is None,
            r.model().simulation_time == 0,
            r.model().entities.len() == 0,
            r.client_id == client_id,
    {
        Game {
            config,
            level,
            guys: Vec::new(),
            my_guy: Option::None,
            client_id,
            simulation_time: 0,
            reconciler: Reconciler::new(),
        }
    }

    pub(crate) fn find_guy(&self, id: i64) -> (r: Option<usize>)
        ensures
            guy_index(self.guys@, id as int, 0) == (match r {
                Option::Some(i) => Option::Some(i as int),
                Option::None => Option::None::<int>,
            }),
            match r {
                Option::Some(i) => 0 <= i < self.guys@.len() && self.guys@[i as int].id == id,
                Option::None => true,
            },
    {
        let n = self.guys.len();
        let mut i: usize = 0;
        while i < n
            invariant
                0 <= i <= n,
                n == self.guys@.len(),
                guy_index(self.guys@, id as int, 0) == guy_index(self.guys@, id as int, i as int),
            decreases n - i,
        {
            if self.guys[i].id == id {
                return Option::Some(i);
            }
            i = i + 1;
        }
        Option::None
    }

    /// Insert or replace one avatar wholesale.
    fn put(&mut self, guy: Guy)
        requires
            old(self).wf(),
            guy.wf(),
            guy_compat(guy, old(self).level.cannons@),
        ensures
            final(self).wf(),
            final(self).guys@ == put_guy(old(self).guys@, guy),
            final(self).my_guy == old(self).my_guy,
            final(self).simulation_time == old(self).simulation_time,
            final(self).reconciler.models() == old(self).reconciler.models(),
            final(self).level == old(self).level,
            final(self).config == old(self).config,
            final(self).client_id == old(self).client_id,
    {
        match self.find_guy(guy.id) {
            Option::Some(i) => {
                self.guys.set(i, guy);
            },
            Option::None => {
                self.guys.push(guy);
            },
        }
    }

    /// Hand the local avatar a fresh input; when it changed, the new state
    /// must be announced to the server.
    pub fn update_my_guy_input(&mut self, new_input: Input) -> (r: Option<ClientMessage>)
        requires
            old(self).wf(),
            new_input.wf(),
        ensures
            final(self).wf(),
            ({
                let m = old(self).model();
                match m.my_guy {
                    Option::Some(id) => match guy_index(m.guys, id as int, 0) {
                        Option::Some(i) => {
                            if m.guys[i].input != new_input {
                                let updated = Guy { input: new_input, ..m.guys[i] };
                                &&& final(self).guys@ == m.guys.update(i, updated)
                                &&& r == Option::Some(
                                    ClientMessage::Update {
                                        simulation_time: old(self).simulation_time,
                                        guy: updated,
                                    },
                                )
                            } else {
                                final(self).guys@ == m.guys && r is None
                            }
                        },
                        Option::None => final(self).guys@ == m.guys && r is None,
                    },
                    Option::None => final(self).guys@ == m.guys && r is None,
                }
            }),
            final(self).my_guy == old(self).my_guy,
            final(self).simulation_time == old(self).simulation_time,
            final(self).reconciler.models() == old(self).reconciler.models(),
    {
        let my = match self.my_guy {
            Option::Some(id) => id,
            Option::None => {
                return Option::None;
            },
        };
        match self.find_guy(my) {
            Option::Some(i) => {
                let mut guy = self.guys[i];
                if guy.input != new_input {
                    guy.input = new_input;
                    self.guys.set(i, guy);
                    Option::Some(
                        ClientMessage::Update { simulation_time: self.simulation_time, guy },
                    )
                } else {
                    Option::None
                }
            },
            Option::None => Option::None,
        }
    }

    /// Respawn the local avatar at the level's spawn point and restart the
    /// local clock; the server is told to drop the old body.
    pub fn respawn_my_guy(&mut self) -> (r: ClientMessage)
        requires
            old(self).wf(),
        ensures
            final(self).wf(),
            final(self).guys@ == put_guy(
                old(self).guys@,
                crate::guy::spawn_spec(old(self).client_id, old(self).level.spawn_point, old(
                    self,
                ).config),
            ),
            final(self).my_guy == Option::Some(old(self).client_id),
            final(self).simulation_time == 0,
            final(self).reconciler.models() == old(self).reconciler.models(),
            final(self).level == old(self).level,
            final(self).config == old(self).config,
            final(self).client_id == old(self).client_id,
            r == ClientMessage::Despawn,
    {
        proof {
            assert(crate::surface::geom_in_range(self.level.spawn_point));
        }
        let new_guy = Guy::spawn(self.client_id, self.level.spawn_point, &self.config);
        if self.my_guy.is_none() {
            self.my_guy = Option::Some(self.client_id);
        } else {
            self.my_guy = Option::Some(self.client_id);
        }
        self.put(new_guy);
        self.simulation_time = 0;
        ClientMessage::Despawn
    }

    /// One physics tick for every avatar, local and remote, in order.
    #[verifier::rlimit(60)]
    pub fn update_guys(&mut self, delta_time: i64, events: &mut Vec<Event>)
        requires
            old(self).wf(),
            0 <= delta_time,
            in_range(delta_time as int),
        ensures
            final(self).wf(),
            final(self).guys@.len() == old(self).guys@.len(),
            forall|i: int|
                0 <= i < old(self).guys@.len() ==> final(self).guys@[i] == tick_spec(
                    old(self).guys@[i],
                    old(self).level.surfaces@,
                    old(self).level.tiles@,
                    old(self).level.objects@,
                    old(self).level.cannons@,
                    old(self).level.portals@,
                    old(self).level.finish_point,
                    old(self).config,
                    delta_time as int,
                ),
            final(self).my_guy == old(self).my_guy,
            final(self).simulation_time == old(self).simulation_time,
            final(self).reconciler.models() == old(self).reconciler.models(),
            final(self).level == old(self).level,
            final(self).config == old(self).config,
            final(self).client_id == old(self).client_id,
    {
        let n = self.guys.len();
        let mut i: usize = 0;
        while i < n
            invariant
                0 <= i <= n,
                n == self.guys@.len(),
                self.guys@.len() == old(self).guys@.len(),
                self.config == old(self).config,
                self.level == old(self).level,
                self.my_guy == old(self).my_guy,
                self.simulation_time == old(self).simulation_time,
                self.client_id == old(self).client_id,
                self.reconciler.models() == old(self).reconciler.models(),
                self.wf(),
                old(self).wf(),
                0 <= delta_time,
                in_range(delta_time as int),
                forall|j: int| i <= j < n ==> self.guys@[j] == old(self).guys@[j],
                forall|j: int|
                    0 <= j < i ==> self.guys@[j] == tick_spec(
                        old(self).guys@[j],
                        old(self).level.surfaces@,
                        old(self).level.tiles@,
                        old(self).level.objects@,
                        old(self).level.cannons@,
                        old(self).level.portals@,
                        old(self).level.finish_point,
                        old(self).config,
                        delta_time as int,
                    ),
            decreases n - i,
        {
            let mut gy = self.guys[i];
            update_guy(&mut gy, &self.level, &self.config, delta_time, events);
            self.guys.set(i, gy);
            i = i + 1;
        }
    }

    /// Drain one batch of staged server messages, in arrival order, and
    /// collect the replies owed to the server: see `step_message`.
    pub fn handle_connection(&mut self, messages: &Vec<ServerMessage>) -> (replies: Vec<
        ClientMessage,
    >)
        requires
            old(self).wf(),
        ensures
            final(self).wf(),
            final(self).level == old(self).level,
            final(self).config == old(self).config,
            final(self).client_id == old(self).client_id,
            ({
                let f = conn_fold(
                    old(self).model(),
                    messages@,
                    old(self).client_id,
                    old(self).level.spawn_point,
                    old(self).config,
                    messages@.len() as int,
                );
                final(self).model() == f.0 && replies@ == f.1
            }),
    {
        let mut replies: Vec<ClientMessage> = Vec::new();
        let n = messages.len();
        let mut i: usize = 0;
        while i < n
            invariant
                0 <= i <= n,
                n == messages@.len(),
                self.wf(),
                self.level == old(self).level,
                self.config == old(self).config,
                self.client_id == old(self).client_id,
                ({
                    let f = conn_fold(
                        old(self).model(),
                        messages@,
                        old(self).client_id,
                        old(self).level.spawn_point,
                        old(self).config,
                        i as int,
                    );
                    self.model() == f.0 && replies@ == f.1
                }),
            decreases n - i,
        {
            let ghost pre = self.model();
            let ghost pre_replies = replies@;
            let msg = messages[i];
            match msg {
                ServerMessage::Pong => {
                    replies.push(ClientMessage::Ping);
                    match self.my_guy {
                        Option::Some(id) => {
                            match self.find_guy(id) {
                                Option::Some(gi) => {
                                    replies.push(
                                        ClientMessage::Update {
                                            simulation_time: self.simulation_time,
                                            guy: self.guys[gi],
                                        },
                                    );
                                },
                                Option::None => {},
                            }
                        },
                        Option::None => {},
                    }
                },
                ServerMessage::ForceReset => {
                    let r = self.respawn_my_guy();
                    replies.push(r);
                },
                ServerMessage::ClientId { id: _ } => {},
                ServerMessage::UpdateGuy { simulation_time, guy } => {
                    if guy.check_wf() && crate::fx::in_range_chk(simulation_time) {
                        self.reconciler.enqueue_update(guy.id, simulation_time, guy);
                    }
                },
                ServerMessage::Despawn { id } => {
                    let ghost pre_guys = self.guys@;
                    match self.find_guy(id) {
                        Option::Some(gi) => {
                            self.guys.remove(gi);
                            proof {
                                assert forall|a: int|
                                    0 <= a < self.guys@.len() implies (#[trigger] self.guys@[a]).wf()
                                    && guy_compat(self.guys@[a], self.level.cannons@) by {
                                    if a < gi {
                                        assert(self.guys@[a] == pre_guys[a]);
                                    } else {
                                        assert(self.guys@[a] == pre_guys[a + 1]);
                                    }
                                }
                            }
                        },
                        Option::None => {},
                    }
                    self.reconciler.despawn(id);
                },
                ServerMessage::Emote { id: _, index: _ } => {},
            }
            i = i + 1;
            proof {
                let st = step_message(
                    pre,
                    messages@[i - 1],
                    old(self).client_id,
                    old(self).level.spawn_point,
                    old(self).config,
                );
                assert(self.model() == st.0);
                assert(replies@ =~= pre_replies + st.1);
            }
        }
        replies
    }


    /// One fixed tick of the whole session: the local clock advances (unless
    /// the local avatar has finished), every avatar runs one physics tick,
    /// and remote playback applies its due snapshots.
    #[verifier::rlimit(100)]
    pub fn fixed_update(&mut self, delta_time: i64, events: &mut Vec<Event>)
        requires
            old(self).wf(),
            0 <= delta_time,
            in_range(delta_time as int),
        ensures
            final(self).wf(),
            final(self).level == old(self).level,
            final(self).config == old(self).config,
            final(self).my_guy == old(self).my_guy,
            final(self).simulation_time as int == (if clock_advances(old(self).model()) {
                clip(old(self).simulation_time + delta_time)
            } else {
                old(self).simulation_time as int
            }),
            final(self).reconciler.models() == advance_entities(
                old(self).reconciler.models(),
                delta_time as int,
                old(self).reconciler.models().len() as int,
            ),
            ({
                let ticked = tick_all(
                    old(self).guys@,
                    old(self).level.surfaces@,
                    old(self).level.tiles@,
                    old(self).level.objects@,
                    old(self).level.cannons@,
                    old(self).level.portals@,
                    old(self).level.finish_point,
                    old(self).config,
                    delta_time as int,
                    old(self).guys@.len() as int,
                );
                let snaps = advance_applied(
                    old(self).reconciler.models(),
                    delta_time as int,
                    old(self).reconciler.models().len() as int,
                );
                let stale = advance_stale(
                    old(self).reconciler.models(),
                    delta_time as int,
                    old(self).reconciler.models().len() as int,
                );
                let applied = apply_snaps(
                    ticked,
                    snaps,
                    snaps.len() as int,
                    old(self).level.cannons@.len() as int,
                );
                &&& final(self).guys@ == drop_ids(applied, stale, applied.len() as int)
                &&& forall|j: int, k: int|
                    0 <= j < final(self).guys@.len() && 0 <= k < stale.len()
                        ==> final(self).guys@[j].id != stale[k]
            }),
    {
        let advance_clock = match self.my_guy {
            Option::Some(id) => match self.find_guy(id) {
                Option::Some(i) => !self.guys[i].progress.finished,
                Option::None => true,
            },
            Option::None => true,
        };
        if advance_clock {
            self.simulation_time = crate::fx::fx_add(self.simulation_time, delta_time);
        }
        self.update_guys(delta_time, events);
        proof {
            lemma_tick_all_index(
                old(self).guys@,
                old(self).level.surfaces@,
                old(self).level.tiles@,
                old(self).level.objects@,
                old(self).level.cannons@,
                old(self).level.portals@,
                old(self).level.finish_point,
                old(self).config,
                delta_time as int,
                old(self).guys@.len() as int,
            );
            assert(self.guys@ =~= tick_all(
                old(self).guys@,
                old(self).level.surfaces@,
                old(self).level.tiles@,
                old(self).level.objects@,
                old(self).level.cannons@,
                old(self).level.portals@,
                old(self).level.finish_point,
                old(self).config,
                delta_time as int,
                old(self).guys@.len() as int,
            ));
        }
        self.sync_remote(delta_time);
    }

    /// Apply one tick of remote playback: tracked clocks advance, due
    /// snapshots replace their avatars wholesale, and stale entities vanish
    /// together with their avatars — after this call no avatar carries an id
    /// the advance dropped as stale.
    pub fn sync_remote(&mut self, delta_time: i64)
        requires
            old(self).wf(),
            0 <= delta_time,
            in_range(delta_time as int),
        ensures
            final(self).wf(),
            final(self).reconciler.models() == advance_entities(
                old(self).reconciler.models(),
                delta_time as int,
                old(self).reconciler.models().len() as int,
            ),
            ({
                let snaps = advance_applied(
                    old(self).reconciler.models(),
                    delta_time as int,
                    old(self).reconciler.models().len() as int,
                );
                let stale = advance_stale(
                    old(self).reconciler.models(),
                    delta_time as int,
                    old(self).reconciler.models().len() as int,
                );
                let applied = apply_snaps(
                    old(self).guys@,
                    snaps,
                    snaps.len() as int,
                    old(self).level.cannons@.len() as int,
                );
                &&& final(self).guys@ == drop_ids(applied, stale, applied.len() as int)
                &&& forall|j: int, k: int|
                    0 <= j < final(self).guys@.len() && 0 <= k < stale.len()
                        ==> final(self).guys@[j].id != stale[k]
            }),
            final(self).my_guy == old(self).my_guy,
            final(self).simulation_time == old(self).simulation_time,
            final(self).level == old(self).level,
            final(self).config == old(self).config,
            final(self).client_id == old(self).client_id,
    {
        let (applied, dropped) = self.reconciler.advance(delta_time);
        let ghost snaps = applied@;
        let ghost stale = dropped@;
        let n = applied.len();
        let mut i: usize = 0;
        while i < n
            invariant
                0 <= i <= n,
                n == snaps.len(),
                applied@ == snaps,
                dropped@ == stale,
                self.wf(),
                forall|j: int| 0 <= j < snaps.len() ==> (#[trigger] snaps[j].guy).wf(),
                self.guys@ == apply_snaps(
                    old(self).guys@,
                    snaps,
                    i as int,
                    old(self).level.cannons@.len() as int,
                ),
                self.my_guy == old(self).my_guy,
                self.simulation_time == old(self).simulation_time,
                self.level == old(self).level,
                self.config == old(self).config,
                self.client_id == old(self).client_id,
                self.reconciler.models() == advance_entities(
                    old(self).reconciler.models(),
                    delta_time as int,
                    old(self).reconciler.models().len() as int,
                ),
            decreases n - i,
        {
            let snap = applied[i];
            let mut guy = snap.guy;
            guy.id = snap.id;
            match guy.cannon_timer {
                Option::Some(ct) => {
                    if ct.cannon_index >= self.level.cannons.len() {
                        guy.cannon_timer = Option::None;
                    }
                },
                Option::None => {},
            }
            self.put(guy);
            i = i + 1;
        }
        let ghost mid_guys = self.guys@;
        let mut kept: Vec<Guy> = Vec::new();
        let m = self.guys.len();
        let mut j: usize = 0;
        while j < m
            invariant
                0 <= j <= m,
                m == mid_guys.len(),
                self.guys@ == mid_guys,
                dropped@ == stale,
                self.wf(),
                kept@ =~= drop_ids(mid_guys, stale, j as int),
                forall|p: int|
                    0 <= p < kept@.len() ==> (#[trigger] kept@[p]).wf() && guy_compat(
                        kept@[p],
                        self.level.cannons@,
                    ),
            decreases m - j,
        {
            let g = self.guys[j];
            if !id_listed(&dropped, g.id) {
                kept.push(g);
            }
            j = j + 1;
        }
        self.guys = kept;
        proof {
            lemma_drop_ids(mid_guys, stale, mid_guys.len() as int);
            assert forall|a: int, k: int|
                0 <= a < self.guys@.len() && 0 <= k < stale.len() implies self.guys@[a].id
                != stale[k] by {
                assert(!stale.contains(self.guys@[a].id));
            }
        }
    }
}

/// Session-level self-healing against dead connections: when a remote
/// entity's tracked clock has drifted beyond the desync threshold from the
/// newest snapshot ever received, one playback tick drops its tracking
/// record (see `crate::net::lemma_stale_entity_removed`) and no avatar with
/// its id survives the avatar pass either.
pub proof fn lemma_stale_avatar_dropped(
    guys: Seq<Guy>,
    s: Seq<EntityModel>,
    dt: int,
    i: int,
    n_cannons: int,
)
    requires
        0 <= i < s.len(),
        crate::fx::abs_i(clip(s[i].sim_time + dt) - s[i].last_seen)
            > crate::net::DESYNC_THRESHOLD as int,
    ensures
        ({
            let snaps = advance_applied(s, dt, s.len() as int);
            let stale = advance_stale(s, dt, s.len() as int);
            let applied = apply_snaps(guys, snaps, snaps.len() as int, n_cannons);
            forall|p: int|
                0 <= p < drop_ids(applied, stale, applied.len() as int).len()
                    ==> #[trigger] drop_ids(applied, stale, applied.len() as int)[p].id as int
                    != s[i].id
        }),
{
    let snaps = advance_applied(s, dt, s.len() as int);
    let stale = advance_stale(s, dt, s.len() as int);
    let applied = apply_snaps(guys, snaps, snaps.len() as int, n_cannons);
    crate::net::lemma_stale_id_listed(s, dt, s.len() as int, i);
    lemma_drop_ids(applied, stale, applied.len() as int);
    let result = drop_ids(applied, stale, applied.len() as int);
    assert forall|p: int| 0 <= p < result.len() implies #[trigger] result[p].id as int
        != s[i].id by {
        assert(!stale.contains(result[p].id));
        if result[p].id as int == s[i].id {
            assert(result[p].id == s[i].id as i64);
            assert(stale.contains(result[p].id));
        }
    }
}

/// Indexing into `tick_all`: each avatar is its own tick.
proof fn lemma_tick_all_index(
    guys: Seq<Guy>,
    surfaces: Seq<crate::surface::Surface>,
    tiles: Seq<crate::tile::Tile>,
    objects: Seq<crate::level::Object>,
    cannons: Seq<crate::level::Cannon>,
    portals: Seq<crate::level::Portal>,
    finish: Vec2,
    cfg: Config,
    dt: int,
    n: int,
)
    requires
        0 <= n <= guys.len(),
    ensures
        tick_all(guys, surfaces, tiles, objects, cannons, portals, finish, cfg, dt, n).len() == n,
        forall|j: int|
            0 <= j < n ==> tick_all(guys, surfaces, tiles, objects, cannons, portals, finish,
                cfg, dt, n)[j] == tick_spec(
                guys[j],
                surfaces,
                tiles,
                objects,
                cannons,
                portals,
                finish,
                cfg,
                dt,
            ),
    decreases n,
{
    if n > 0 {
        lemma_tick_all_index(guys, surfaces, tiles, objects, cannons, portals, finish, cfg, dt,
            n - 1);
    }
}

} // verus!
