use vstd::prelude::*;
use crate::geometry::{Vec3, ANGLE_FULL};
use crate::model::{
    player_ids, player_views, GameConfig, Item, PlayerId, PlayerState, PlayerView, TurnInput,
    WorldState, BOOST_FULL, HOVER_HEIGHT, ITEM_HEIGHT, MIN_SPAWN_RANGE, SPAWN_MARGIN,
};
use crate::pending::PendingCommands;
use crate::tick::{killed, tick_player, tick_player_spec, detect_collisions};
use crate::motion::advance_player_spec;
use crate::trailer::{trailer_spec, rebuild_trailer};
use crate::rng::{random_in, random_uuid};

verus! {

/// Fewest filler participants (players without a connection) the server keeps in the world.
pub const MIN_FILLERS: usize = 3;

/// How many filler participants to add when `current` are in the world.
pub fn fillers_to_add(current: usize) -> (r: usize)
    ensures
        r == if current < MIN_FILLERS { MIN_FILLERS - current } else { 0 },
{
    if current < MIN_FILLERS {
        MIN_FILLERS - current
    } else {
        0
    }
}

/// Half-extent of the area where players spawn: 15 units inside the walls, at least 5.
pub open spec fn spawn_range(cfg: GameConfig) -> int {
    if cfg.world_size - SPAWN_MARGIN > MIN_SPAWN_RANGE {
        cfg.world_size - SPAWN_MARGIN
    } else {
        MIN_SPAWN_RANGE as int
    }
}

/// `p` stands at a spawn point: inside the spawn area at hover height, alive, full boost.
pub open spec fn at_spawn(p: PlayerView, cfg: GameConfig) -> bool {
    &&& -spawn_range(cfg) <= p.position.x < spawn_range(cfg)
    &&& -spawn_range(cfg) <= p.position.z < spawn_range(cfg)
    &&& p.position.y == HOVER_HEIGHT
    &&& 0 <= p.rotation_y < ANGLE_FULL
    &&& p.alive
    &&& p.boost_meter == BOOST_FULL
}

/// `p` is player `id` respawned: at a spawn point with a trailer of its own position only.
pub open spec fn is_respawn(p: PlayerView, id: PlayerId, cfg: GameConfig) -> bool {
    &&& p.id == id
    &&& at_spawn(p, cfg)
    &&& p.trailer == seq![p.position]
}

/// `p` is a newly joined player: at a spawn point with its carts laid out straight behind it.
pub open spec fn is_new_player(p: PlayerView, cfg: GameConfig) -> bool {
    &&& at_spawn(p, cfg)
    &&& p.trailer == trailer_spec(p.position, p.rotation_y as int, Seq::empty(), cfg.initial_length as int)
}

/// `it` lies inside the arena at item height.
pub open spec fn item_in_world(it: Item, cfg: GameConfig) -> bool {
    &&& -cfg.world_size <= it.pos.x < cfg.world_size
    &&& -cfg.world_size <= it.pos.z < cfg.world_size
    &&& it.pos.y == ITEM_HEIGHT
}

/// The turn command waiting for `id`; straight ahead when none.
pub open spec fn turn_command(inputs: PendingCommands<TurnInput>, id: PlayerId) -> TurnInput {
    match inputs.get_spec(id) {
        Some(t) => t,
        None => TurnInput::Straight,
    }
}

/// The boost command waiting for `id`; off when none.
pub open spec fn boost_command(boosts: PendingCommands<bool>, id: PlayerId) -> bool {
    boosts.get_spec(id) == Some(true)
}

/// Every player after its own tick of motion, pickup and trailer rebuild.
pub open spec fn moved_players(
    ps: Seq<PlayerView>,
    items: Seq<Item>,
    inputs: PendingCommands<TurnInput>,
    boosts: PendingCommands<bool>,
    cfg: GameConfig,
) -> Seq<PlayerView> {
    Seq::new(
        ps.len(),
        |i: int|
            tick_player_spec(ps[i], items, turn_command(inputs, ps[i].id), boost_command(boosts, ps[i].id), cfg).0,
    )
}

/// Item `j` is picked up by some player this tick.
pub open spec fn item_taken(
    ps: Seq<PlayerView>,
    items: Seq<Item>,
    inputs: PendingCommands<TurnInput>,
    boosts: PendingCommands<bool>,
    cfg: GameConfig,
    j: int,
) -> bool {
    exists|i: int|
        0 <= i < ps.len() && (#[trigger] tick_player_spec(ps[i], items, turn_command(inputs, ps[i].id), boost_command(boosts, ps[i].id), cfg)).1
            == Some(j)
}

/// The first `n` items, without those that `taken` marks.
pub open spec fn items_kept(items: Seq<Item>, taken: spec_fn(int) -> bool, n: int) -> Seq<Item>
    decreases n,
{
    if n <= 0 {
        Seq::empty()
    } else if taken(n - 1) {
        items_kept(items, taken, n - 1)
    } else {
        items_kept(items, taken, n - 1).push(items[n - 1])
    }
}

/// Players after the collision pass: each one that ran into another is dead.
pub open spec fn after_collisions(ms: Seq<PlayerView>) -> Seq<PlayerView> {
    Seq::new(
        ms.len(),
        |i: int|
            if killed(ms, i) {
                PlayerView { alive: false, ..ms[i] }
            } else {
                ms[i]
            },
    )
}

/// Mathematical model of the whole simulation.
pub struct SimView {
    pub cfg: GameConfig,
    pub world_size: i64,
    pub players: Seq<PlayerView>,
    pub items: Seq<Item>,
    pub tick: u64,
}

/// The simulation: one world, its configuration, and the commands waiting for the next tick.
pub struct GameSim {
    pub cfg: GameConfig,
    pub state: WorldState,
    pub pending_inputs: PendingCommands<TurnInput>,
    pub pending_boosts: PendingCommands<bool>,
}

impl View for GameSim {
    type V = SimView;

    open spec fn view(&self) -> SimView {
        SimView {
            cfg: self.cfg,
            world_size: self.state.world_size,
            players: player_views(self.state.players@),
            items: self.state.items@,
            tick: self.state.tick,
        }
    }
}

/// No command is waiting for anyone.
pub open spec fn no_commands(s: &GameSim) -> bool {
    &&& forall|id: PlayerId| #[trigger] s.pending_inputs.get_spec(id) is None
    &&& forall|id: PlayerId| #[trigger] s.pending_boosts.get_spec(id) is None
}

/// Every `c` below `k` is the identifier of an entry of `s`.
pub open spec fn covers(s: Seq<PlayerId>, k: int) -> bool {
    forall|c: int| 0 <= c < k ==> s.contains(#[trigger] (c as PlayerId))
}

/// After the deterministic part of a tick, a living player's trailer starts at its position.
proof fn lemma_alive_heads_trailer(
    ps: Seq<PlayerView>,
    items: Seq<Item>,
    inputs: PendingCommands<TurnInput>,
    boosts: PendingCommands<bool>,
    cfg: GameConfig,
)
    ensures
        forall|i: int| 0 <= i < ps.len() && (#[trigger] after_collisions(moved_players(ps, items, inputs, boosts, cfg))[i]).alive
            ==> after_collisions(moved_players(ps, items, inputs, boosts, cfg))[i].trailer[0]
                == after_collisions(moved_players(ps, items, inputs, boosts, cfg))[i].position,
{
    let ms = moved_players(ps, items, inputs, boosts, cfg);
    assert forall|i: int| 0 <= i < ps.len() && (#[trigger] after_collisions(ms)[i]).alive implies after_collisions(ms)[i].trailer[0]
        == after_collisions(ms)[i].position by {
        let m = advance_player_spec(ps[i], turn_command(inputs, ps[i].id), boost_command(boosts, ps[i].id), cfg);
        assert(ms[i] == tick_player_spec(ps[i], items, turn_command(inputs, ps[i].id), boost_command(boosts, ps[i].id), cfg).0);
        assert(after_collisions(ms)[i].alive ==> ms[i].alive);
    }
}

proof fn lemma_no_dup_remove(s: Seq<PlayerId>, i: int)
    requires
        s.no_duplicates(),
        0 <= i < s.len(),
    ensures
        s.remove(i).no_duplicates(),
{
    let t = s.remove(i);
    assert forall|a: int, b: int| 0 <= a < t.len() && 0 <= b < t.len() && a != b implies t[a] != t[b] by {
        let sa = if a < i { a } else { a + 1 };
        let sb = if b < i { b } else { b + 1 };
        assert(t[a] == s[sa] && t[b] == s[sb]);
    }
}

proof fn lemma_cover_len(s: Seq<PlayerId>, k: int)
    requires
        0 <= k <= PlayerId::MAX,
        covers(s, k),
    ensures
        s.len() >= k,
    decreases k,
{
    if k > 0 {
        let top = (k - 1) as PlayerId;
        assert(s.contains(top));
        let idx = choose|i: int| 0 <= i < s.len() && s[i] == top;
        let t = s.remove(idx);
        assert forall|c: int| 0 <= c < k - 1 implies t.contains(#[trigger] (c as PlayerId)) by {
            assert(s.contains(c as PlayerId));
            let j = choose|j: int| 0 <= j < s.len() && s[j] == c as PlayerId;
            if j < idx {
                assert(t[j] == s[j]);
            } else {
                assert(t[j - 1] == s[j]);
            }
        }
        lemma_cover_len(t, k - 1);
    }
}

impl GameSim {
    /// Configuration valid, world well formed, the world size the configured one.
    pub open spec fn wf(&self) -> bool {
        &&& self.cfg.wf()
        &&& self.state.wf()
        &&& self.state.world_size == self.cfg.world_size
    }

    /// An empty world at tick 0.
    pub fn new(cfg: GameConfig) -> (r: GameSim)
        requires
            cfg.wf(),
        ensures
            r.wf(),
            r@.cfg == cfg,
            r@.world_size == cfg.world_size,
            r@.players.len() == 0,
            r@.items.len() == 0,
            r@.tick == 0,
            no_commands(&r),
    {
        let r = GameSim {
            cfg,
            state: WorldState { world_size: cfg.world_size, players: Vec::new(), items: Vec::new(), tick: 0 },
            pending_inputs: PendingCommands::new(),
            pending_boosts: PendingCommands::new(),
        };
        assert(player_views(r.state.players@) =~= Seq::empty());
        assert(player_ids(player_views(r.state.players@)) =~= Seq::empty());
        r
    }

    /// Index of player `id`.
    pub fn index_of(&self, id: PlayerId) -> (r: Option<usize>)
        ensures
            r matches Some(i) ==> i < self@.players.len() && self@.players[i as int].id == id,
            r is None ==> forall|i: int| 0 <= i < self@.players.len() ==> #[trigger] self@.players[i].id != id,
    {
        let mut k: usize = 0;
        while k < self.state.players.len()
            invariant
                k <= self.state.players@.len(),
                forall|i: int| 0 <= i < k ==> #[trigger] self.state.players@[i].id != id,
            decreases self.state.players@.len() - k,
        {
            if self.state.players[k].id == id {
                return Some(k);
            }
            k = k + 1;
        }
        None
    }

    /// An identifier that no player has: a random UUID, or, should that one be taken,
    /// the smallest value that is free.
    fn unused_id(&self) -> (r: PlayerId)
        ensures
            !player_ids(self@.players).contains(r),
    {
        let ghost ids = player_ids(self@.players);
        let drawn = random_uuid();
        if self.index_of(drawn).is_none() {
            proof {
                if ids.contains(drawn) {
                    let j = choose|j: int| 0 <= j < ids.len() && ids[j] == drawn;
                    assert(self@.players[j].id == drawn);
                }
            }
            return drawn;
        }
        let count = self.state.players.len();
        assert(ids.len() == count);
        let mut c: u128 = 0;
        loop
            invariant
                ids == player_ids(self@.players),
                ids.len() == count,
                covers(ids, c as int),
                c <= ids.len(),
            decreases ids.len() - c,
        {
            match self.index_of(c) {
                None => {
                    proof {
                        if ids.contains(c) {
                            let j = choose|j: int| 0 <= j < ids.len() && ids[j] == c;
                            assert(self@.players[j].id == c);
                        }
                    }
                    return c;
                },
                Some(i) => {
                    proof {
                        assert(ids[i as int] == c);
                        assert(covers(ids, c + 1)) by {
                            assert forall|d: int| 0 <= d < c + 1 implies ids.contains(#[trigger] (d as PlayerId)) by {
                                if d == c {
                                    assert(ids[i as int] == d as PlayerId);
                                }
                            }
                        }
                        lemma_cover_len(ids, c + 1);
                    }
                    c = c + 1;
                },
            }
        }
    }

    /// Draws a spawn point: position inside the spawn area and a yaw.
    fn draw_spawn(&self) -> (r: (Vec3, i64))
        requires
            self.wf(),
        ensures
            -spawn_range(self.cfg) <= r.0.x < spawn_range(self.cfg),
            -spawn_range(self.cfg) <= r.0.z < spawn_range(self.cfg),
            r.0.y == HOVER_HEIGHT,
            r.0.wf(),
            0 <= r.1 < ANGLE_FULL,
    {
        let ws = self.cfg.world_size;
        let range = if ws - SPAWN_MARGIN > MIN_SPAWN_RANGE { ws - SPAWN_MARGIN } else { MIN_SPAWN_RANGE };
        let x = random_in(-range, range);
        let z = random_in(-range, range);
        let yaw = random_in(0, ANGLE_FULL);
        (Vec3 { x, y: HOVER_HEIGHT, z }, yaw)
    }

    /// Adds a player at a random spawn point, facing a random direction, with full boost
    /// and `initial_length` trailer entries laid out straight behind it. Returns its new
    /// identifier.
    pub fn add_player(&mut self) -> (id: PlayerId)
        requires
            old(self).wf(),
        ensures
            final(self).wf(),
            !player_ids(old(self)@.players).contains(id),
            final(self)@.players.len() == old(self)@.players.len() + 1,
            final(self)@.players.drop_last() == old(self)@.players,
            final(self)@.players.last().id == id,
            is_new_player(final(self)@.players.last(), final(self).cfg),
            final(self)@.items == old(self)@.items,
            final(self)@.tick == old(self)@.tick,
            final(self)@.cfg == old(self)@.cfg,
            final(self).pending_inputs == old(self).pending_inputs,
            final(self).pending_boosts == old(self).pending_boosts,
    {
        let id = self.unused_id();
        let (pos, yaw) = self.draw_spawn();
        let none: Vec<Vec3> = Vec::new();
        let trailer = rebuild_trailer(pos, yaw, &none, self.cfg.initial_length);
        let p = PlayerState { id, position: pos, rotation_y: yaw, trailer, alive: true, boost_meter: BOOST_FULL };
        let ghost before = self.state.players@;
        self.state.players.push(p);
        proof {
            assert(none@ =~= Seq::<Vec3>::empty());
            assert(player_views(self.state.players@) =~= player_views(before).push(p@));
            assert(player_ids(player_views(self.state.players@)) =~= player_ids(player_views(before)).push(id));
            assert(player_views(self.state.players@).drop_last() =~= player_views(before));
        }
        id
    }

    /// Replaces player `i` by a respawned copy: a random spawn point, full boost, a trailer
    /// of its own position only, and no waiting commands.
    fn respawn_index(&mut self, i: usize)
        requires
            old(self).wf(),
            i < old(self)@.players.len(),
        ensures
            final(self).wf(),
            final(self)@.players == old(self)@.players.update(i as int, final(self)@.players[i as int]),
            is_respawn(final(self)@.players[i as int], old(self)@.players[i as int].id, old(self).cfg),
            final(self)@.items == old(self)@.items,
            final(self)@.tick == old(self)@.tick,
            final(self)@.cfg == old(self)@.cfg,
            final(self).pending_inputs.get_spec(old(self)@.players[i as int].id) is None,
            final(self).pending_boosts.get_spec(old(self)@.players[i as int].id) is None,
            forall|o: PlayerId| o != old(self)@.players[i as int].id ==> #[trigger] final(self).pending_inputs.get_spec(o) == old(self).pending_inputs.get_spec(o),
            forall|o: PlayerId| o != old(self)@.players[i as int].id ==> #[trigger] final(self).pending_boosts.get_spec(o) == old(self).pending_boosts.get_spec(o),
    {
        let id = self.state.players[i].id;
        let (pos, yaw) = self.draw_spawn();
        let mut trailer: Vec<Vec3> = Vec::new();
        trailer.push(pos);
        let p = PlayerState { id, position: pos, rotation_y: yaw, trailer, alive: true, boost_meter: BOOST_FULL };
        let ghost before = self.state.players@;
        self.state.players[i] = p;
        proof {
            assert(trailer@ =~= seq![pos]);
            assert(player_views(self.state.players@) =~= player_views(before).update(i as int, p@));
            assert(player_ids(player_views(self.state.players@)) =~= player_ids(player_views(before)));
        }
        self.pending_inputs.discard(id);
        self.pending_boosts.discard(id);
    }

    /// Respawns player `id`; nothing happens when no player has that identifier.
    pub fn respawn_player(&mut self, id: &PlayerId)
        requires
            old(self).wf(),
        ensures
            final(self).wf(),
            final(self)@.items == old(self)@.items,
            final(self)@.tick == old(self)@.tick,
            final(self)@.cfg == old(self)@.cfg,
            final(self)@.players.len() == old(self)@.players.len(),
            forall|i: int| 0 <= i < old(self)@.players.len() ==> {
                if old(self)@.players[i].id == *id {
                    is_respawn(#[trigger] final(self)@.players[i], *id, old(self).cfg)
                } else {
                    final(self)@.players[i] == old(self)@.players[i]
                }
            },
            (exists|i: int| 0 <= i < old(self)@.players.len() && #[trigger] old(self)@.players[i].id == *id) ==> {
                &&& final(self).pending_inputs.get_spec(*id) is None
                &&& final(self).pending_boosts.get_spec(*id) is None
            },
            forall|o: PlayerId| o != *id ==> #[trigger] final(self).pending_inputs.get_spec(o) == old(self).pending_inputs.get_spec(o),
            forall|o: PlayerId| o != *id ==> #[trigger] final(self).pending_boosts.get_spec(o) == old(self).pending_boosts.get_spec(o),
            (forall|i: int| 0 <= i < old(self)@.players.len() ==> #[trigger] old(self)@.players[i].id != *id) ==> {
                &&& final(self)@.players == old(self)@.players
                &&& final(self).pending_inputs == old(self).pending_inputs
                &&& final(self).pending_boosts == old(self).pending_boosts
            },
    {
        let id = *id;
        match self.index_of(id) {
            Some(i) => {
                proof {
                    let ids = player_ids(self@.players);
                    assert forall|j: int| 0 <= j < self@.players.len() && j != i implies self@.players[j].id != id by {
                        assert(ids[j] != ids[i as int]);
                    }
                }
                self.respawn_index(i);
            },
            None => {},
        }
    }

    /// Removes player `id` and every command waiting for it; nothing else happens when no
    /// player has that identifier.
    pub fn remove_player(&mut self, id: &PlayerId)
        requires
            old(self).wf(),
        ensures
            final(self).wf(),
            (exists|i: int| 0 <= i < old(self)@.players.len() && old(self)@.players[i].id == *id
                && final(self)@.players == old(self)@.players.remove(i))
            || ((forall|i: int| 0 <= i < old(self)@.players.len() ==> #[trigger] old(self)@.players[i].id != *id)
                && final(self)@.players == old(self)@.players),
            final(self)@.items == old(self)@.items,
            final(self)@.tick == old(self)@.tick,
            final(self)@.cfg == old(self)@.cfg,
            final(self).pending_inputs.get_spec(*id) is None,
            final(self).pending_boosts.get_spec(*id) is None,
            forall|o: PlayerId| o != *id ==> #[trigger] final(self).pending_inputs.get_spec(o) == old(self).pending_inputs.get_spec(o),
            forall|o: PlayerId| o != *id ==> #[trigger] final(self).pending_boosts.get_spec(o) == old(self).pending_boosts.get_spec(o),
    {
        let id = *id;
        match self.index_of(id) {
            Some(i) => {
                let ghost before = self.state.players@;
                let _gone = self.state.players.remove(i);
                proof {
                    assert(player_views(self.state.players@) =~= player_views(before).remove(i as int));
                    assert(player_ids(player_views(self.state.players@)) =~= player_ids(player_views(before)).remove(i as int));
                    lemma_no_dup_remove(player_ids(player_views(before)), i as int);
                }
            },
            None => {},
        }
        self.pending_inputs.discard(id);
        self.pending_boosts.discard(id);
    }

    /// Records the turn command of player `id` for the next tick, replacing one not yet used.
    pub fn submit_input(&mut self, id: PlayerId, input: TurnInput)
        ensures
            final(self)@ == old(self)@,
            final(self).pending_boosts == old(self).pending_boosts,
            final(self).pending_inputs.get_spec(id) == Some(input),
            forall|o: PlayerId| o != id ==> #[trigger] final(self).pending_inputs.get_spec(o) == old(self).pending_inputs.get_spec(o),
    {
        self.pending_inputs.record(id, input);
    }

    /// Records the boost command of player `id` for the next tick, replacing one not yet used.
    pub fn submit_boost(&mut self, id: PlayerId, boost: bool)
        ensures
            final(self)@ == old(self)@,
            final(self).pending_inputs == old(self).pending_inputs,
            final(self).pending_boosts.get_spec(id) == Some(boost),
            forall|o: PlayerId| o != id ==> #[trigger] final(self).pending_boosts.get_spec(o) == old(self).pending_boosts.get_spec(o),
    {
        self.pending_boosts.record(id, boost);
    }
    /// Adds an item at a random position inside the arena, with a random identifier.
    fn spawn_item(&mut self)
        requires
            old(self).wf(),
        ensures
            final(self).wf(),
            final(self)@.items.len() == old(self)@.items.len() + 1,
            final(self)@.items.drop_last() == old(self)@.items,
            item_in_world(final(self)@.items.last(), final(self).cfg),
            final(self)@.players == old(self)@.players,
            final(self)@.tick == old(self)@.tick,
            final(self)@.cfg == old(self)@.cfg,
            final(self).pending_inputs == old(self).pending_inputs,
            final(self).pending_boosts == old(self).pending_boosts,
    {
        let ws = self.cfg.world_size;
        let x = random_in(-ws, ws);
        let z = random_in(-ws, ws);
        let id = random_uuid();
        let ghost before = self.state.items@;
        self.state.items.push(Item { pos: Vec3 { x, y: ITEM_HEIGHT, z }, id });
        assert(self.state.items@.drop_last() =~= before);
    }

    /// The deterministic part of a tick: the tick counter advances; every living player
    /// boosts, turns, moves and meets the walls, picks up the first item in reach and
    /// rebuilds its trailer; picked-up items leave the world; then every player that ran
    /// into another (judged on the positions before any death is applied) is marked dead.
    /// All waiting commands are consumed.
    pub fn advance(&mut self)
        requires
            old(self).wf(),
            old(self)@.tick < u64::MAX,
        ensures
            final(self).wf(),
            final(self)@.tick == old(self)@.tick + 1,
            final(self)@.cfg == old(self)@.cfg,
            final(self)@.world_size == old(self)@.world_size,
            final(self)@.players == after_collisions(
                moved_players(old(self)@.players, old(self)@.items, old(self).pending_inputs, old(self).pending_boosts, old(self).cfg),
            ),
            final(self)@.items == items_kept(
                old(self)@.items,
                |j: int| item_taken(old(self)@.players, old(self)@.items, old(self).pending_inputs, old(self).pending_boosts, old(self).cfg, j),
                old(self)@.items.len() as int,
            ),
            no_commands(final(self)),
    {
        let ghost ps0 = self@.players;
        let ghost items0 = self@.items;
        let ghost ins = self.pending_inputs;
        let ghost bs = self.pending_boosts;
        let ghost cfg = self.cfg;
        let ghost ms = moved_players(ps0, items0, ins, bs, cfg);
        self.state.tick = self.state.tick + 1;
        let mut olds: Vec<PlayerState> = Vec::new();
        std::mem::swap(&mut olds, &mut self.state.players);
        let n = olds.len();
        let mut taken: Vec<bool> = Vec::new();
        let mut t: usize = 0;
        while t < self.state.items.len()
            invariant
                t <= self.state.items@.len(),
                taken@.len() == t,
                forall|j: int| 0 <= j < t ==> !(#[trigger] taken@[j]),
            decreases self.state.items@.len() - t,
        {
            taken.push(false);
            t = t + 1;
        }
        let mut moved: Vec<PlayerState> = Vec::new();
        let mut k: usize = 0;
        while k < n
            invariant
                k <= n,
                n == ps0.len(),
                olds@.len() == n - k,
                forall|a: int| 0 <= a < n - k ==> (#[trigger] olds@[a])@ == ps0[k + a],
                forall|a: int| 0 <= a < n - k ==> (#[trigger] olds@[a]).wf(),
                moved@.len() == k,
                forall|a: int| 0 <= a < k ==> (#[trigger] moved@[a])@ == ms[a],
                forall|a: int| 0 <= a < k ==> (#[trigger] moved@[a]).wf(),
                taken@.len() == items0.len(),
                forall|j: int| 0 <= j < items0.len() ==> (#[trigger] taken@[j] <==> exists|i: int|
                    0 <= i < k && (#[trigger] tick_player_spec(ps0[i], items0, turn_command(ins, ps0[i].id), boost_command(bs, ps0[i].id), cfg)).1 == Some(j)),
                ms == moved_players(ps0, items0, ins, bs, cfg),
                self.state.items@ == items0,
                self.pending_inputs == ins,
                self.pending_boosts == bs,
                self.cfg == cfg,
                cfg.wf(),
                forall|i: int| 0 <= i < items0.len() ==> (#[trigger] items0[i]).pos.wf(),
            decreases n - k,
        {
            let mut p = olds.remove(0);
            assert(p@ == ps0[k as int]);
            let turn = match self.pending_inputs.get(p.id) {
                Some(t) => t,
                None => TurnInput::Straight,
            };
            let boost = match self.pending_boosts.get(p.id) {
                Some(b) => b,
                None => false,
            };
            let ghost pk = tick_player_spec(ps0[k as int], items0, turn_command(ins, ps0[k as int].id), boost_command(bs, ps0[k as int].id), cfg);
            let pick = tick_player(&mut p, &self.state.items, turn, boost, &self.cfg);
            let ghost old_taken = taken@;
            match pick {
                Some(j) => {
                    taken.set(j, true);
                },
                None => {},
            }
            proof {
                assert forall|j: int| 0 <= j < items0.len() implies (#[trigger] taken@[j] <==> exists|i: int|
                    0 <= i < k + 1 && (#[trigger] tick_player_spec(ps0[i], items0, turn_command(ins, ps0[i].id), boost_command(bs, ps0[i].id), cfg)).1 == Some(j)) by {
                    if pk.1 == Some(j) {
                        assert(tick_player_spec(ps0[k as int], items0, turn_command(ins, ps0[k as int].id), boost_command(bs, ps0[k as int].id), cfg).1 == Some(j));
                    }
                    if old_taken[j] {
                        let i = choose|i: int| 0 <= i < k && (#[trigger] tick_player_spec(ps0[i], items0, turn_command(ins, ps0[i].id), boost_command(bs, ps0[i].id), cfg)).1 == Some(j);
                        assert(0 <= i < k + 1);
                    }
                }
                assert forall|a: int| 0 <= a < n - k - 1 implies (#[trigger] olds@[a])@ == ps0[k + 1 + a] by {}
            }
            moved.push(p);
            k = k + 1;
        }
        let ghost taken_f = |j: int| item_taken(ps0, items0, ins, bs, cfg, j);
        let mut kept: Vec<Item> = Vec::new();
        let mut j: usize = 0;
        while j < self.state.items.len()
            invariant
                j <= items0.len(),
                self.state.items@ == items0,
                taken@.len() == items0.len(),
                forall|q: int| 0 <= q < items0.len() ==> (#[trigger] taken@[q] == taken_f(q)),
                kept@ == items_kept(items0, taken_f, j as int),
                forall|i: int| 0 <= i < items0.len() ==> (#[trigger] items0[i]).pos.wf(),
                forall|i: int| 0 <= i < kept@.len() ==> (#[trigger] kept@[i]).pos.wf(),
            decreases items0.len() - j,
        {
            if !taken[j] {
                kept.push(self.state.items[j]);
            }
            j = j + 1;
        }
        let flags = detect_collisions(&moved);
        proof {
            assert(player_views(moved@) =~= ms);
        }
        let mut out: Vec<PlayerState> = Vec::new();
        let mut m: usize = 0;
        let ghost moved0 = moved@;
        while m < n
            invariant
                m <= n,
                n == ms.len(),
                moved@.len() == n - m,
                forall|a: int| 0 <= a < n - m ==> #[trigger] moved@[a] == moved0[m + a],
                moved0.len() == n,
                forall|a: int| 0 <= a < n ==> (#[trigger] moved0[a])@ == ms[a],
                forall|a: int| 0 <= a < n ==> (#[trigger] moved0[a]).wf(),
                flags@.len() == n,
                forall|a: int| 0 <= a < n ==> #[trigger] flags@[a] == killed(ms, a),
                out@.len() == m,
                forall|a: int| 0 <= a < m ==> (#[trigger] out@[a])@ == after_collisions(ms)[a],
                forall|a: int| 0 <= a < m ==> (#[trigger] out@[a]).wf(),
            decreases n - m,
        {
            let mut p = moved.remove(0);
            if flags[m] {
                p.alive = false;
            }
            proof {
                assert forall|a: int| 0 <= a < n - m - 1 implies #[trigger] moved@[a] == moved0[m + 1 + a] by {}
            }
            out.push(p);
            m = m + 1;
        }
        self.state.players = out;
        self.state.items = kept;
        self.pending_inputs.clear();
        self.pending_boosts.clear();
        proof {
            let fin = player_views(self.state.players@);
            assert(fin =~= after_collisions(ms));
            assert(player_ids(fin) =~= player_ids(ps0));
        }
    }

    /// Advances the simulation by one tick of 1/30 s: the deterministic part (`advance`),
    /// then every dead player respawns at a random spawn point, and every
    /// `item_spawn_every_ticks` ticks one item appears at a random position in the arena.
    pub fn step(&mut self)
        requires
            old(self).wf(),
            old(self)@.tick < u64::MAX,
        ensures
            final(self).wf(),
            final(self)@.tick == old(self)@.tick + 1,
            final(self)@.cfg == old(self)@.cfg,
            ({
                let ms = after_collisions(
                    moved_players(old(self)@.players, old(self)@.items, old(self).pending_inputs, old(self).pending_boosts, old(self).cfg),
                );
                &&& final(self)@.players.len() == ms.len()
                &&& forall|i: int| 0 <= i < ms.len() ==> if ms[i].alive {
                    #[trigger] final(self)@.players[i] == ms[i]
                } else {
                    is_respawn(final(self)@.players[i], ms[i].id, old(self).cfg)
                }
            }),
            ({
                let rest = items_kept(
                    old(self)@.items,
                    |j: int| item_taken(old(self)@.players, old(self)@.items, old(self).pending_inputs, old(self).pending_boosts, old(self).cfg, j),
                    old(self)@.items.len() as int,
                );
                if final(self)@.tick % old(self).cfg.item_spawn_every_ticks == 0 {
                    &&& final(self)@.items.len() == rest.len() + 1
                    &&& final(self)@.items.drop_last() == rest
                    &&& item_in_world(final(self)@.items.last(), old(self).cfg)
                } else {
                    final(self)@.items == rest
                }
            }),
            no_commands(final(self)),
            forall|i: int| 0 <= i < final(self)@.players.len() ==> (#[trigger] final(self)@.players[i]).trailer[0]
                == final(self)@.players[i].position,
    {
        proof {
            lemma_alive_heads_trailer(old(self)@.players, old(self)@.items, old(self).pending_inputs, old(self).pending_boosts, old(self).cfg);
        }
        self.advance();
        let ghost ms = self@.players;
        let ghost cfg = self.cfg;
        let ghost items1 = self@.items;
        let ghost tick1 = self@.tick;
        let mut i: usize = 0;
        while i < self.state.players.len()
            invariant
                self.wf(),
                self.cfg == cfg,
                self@.items == items1,
                self@.tick == tick1,
                self@.players.len() == ms.len(),
                no_commands(self),
                forall|a: int| 0 <= a < i ==> if ms[a].alive {
                    #[trigger] self@.players[a] == ms[a]
                } else {
                    is_respawn(self@.players[a], ms[a].id, cfg)
                },
                forall|a: int| i <= a < ms.len() ==> #[trigger] self@.players[a] == ms[a],
            decreases ms.len() - i,
        {
            if !self.state.players[i].alive {
                assert(self@.players[i as int] == ms[i as int]);
                self.respawn_index(i);
            }
            i = i + 1;
        }
        if self.state.tick % self.cfg.item_spawn_every_ticks == 0 {
            self.spawn_item();
        }
    }
}

} // verus!
