use vstd::prelude::*;
use vstd::arithmetic::power::pow;
use crate::geometry::{Vec3, ANGLE_FULL, ANGLE_HALF, UNIT};
use crate::model::{
    player_ids, player_views, GameConfig, PlayerId, PlayerState, PlayerView, TurnInput,
    WorldState, BOOST_FULL, HOVER_HEIGHT, MAX_WORLD_SIZE,
};
use crate::motion::{advance_player, advance_player_spec};
use crate::sim::GameSim;

verus! {

/// Message from a client to the server.
#[derive(Clone, Debug, PartialEq, Eq)]
pub enum ClientToServer {
    /// Greeting; accepted and not used by the simulation.
    Hello { name: String },
    /// The latest turn and boost commands.
    Input { turn: TurnInput, boost: bool },
    /// Latency probe, answered with `Pong` of the same nonce.
    Ping(u64),
}

/// Message from the server to a client.
#[derive(Clone, Debug)]
pub enum ServerToClient {
    /// Sent once on connection: the client's player and the arena size.
    Welcome { id: PlayerId, world_size: i64 },
    /// Full snapshot of the world after a tick.
    State(WorldState),
    /// Answer to `Ping`.
    Pong(u64),
    /// Reserved; the engine respawns silently and never sends it.
    YouDied,
}

/// The input message for the keys being held: left wins over right, neither is straight.
pub fn input_message(left: bool, right: bool, boost: bool) -> (r: ClientToServer)
    ensures
        r == (ClientToServer::Input {
            turn: if left { TurnInput::Left } else if right { TurnInput::Right } else { TurnInput::Straight },
            boost,
        }),
{
    let turn = if left {
        TurnInput::Left
    } else if right {
        TurnInput::Right
    } else {
        TurnInput::Straight
    };
    ClientToServer::Input { turn, boost }
}

/// Server side of one client message from the connection of player `id`: input is
/// recorded for the next tick, a ping is answered with a pong of the same nonce (the
/// returned message, for that connection only), a greeting is ignored.
pub fn handle_client_message(sim: &mut GameSim, id: PlayerId, msg: ClientToServer) -> (r: Option<ServerToClient>)
    ensures
        final(sim)@ == old(sim)@,
        final(sim).cfg == old(sim).cfg,
        match msg {
            ClientToServer::Input { turn, boost } => {
                &&& r is None
                &&& final(sim).pending_inputs.get_spec(id) == Some(turn)
                &&& final(sim).pending_boosts.get_spec(id) == Some(boost)
                &&& forall|o: PlayerId| o != id ==> #[trigger] final(sim).pending_inputs.get_spec(o) == old(sim).pending_inputs.get_spec(o)
                &&& forall|o: PlayerId| o != id ==> #[trigger] final(sim).pending_boosts.get_spec(o) == old(sim).pending_boosts.get_spec(o)
            },
            ClientToServer::Ping(n) => {
                &&& r matches Some(ServerToClient::Pong(m)) && m == n
                &&& final(sim).pending_inputs == old(sim).pending_inputs
                &&& final(sim).pending_boosts == old(sim).pending_boosts
            },
            ClientToServer::Hello { .. } => {
                &&& r is None
                &&& final(sim).pending_inputs == old(sim).pending_inputs
                &&& final(sim).pending_boosts == old(sim).pending_boosts
            },
        },
{
    match msg {
        ClientToServer::Input { turn, boost } => {
            sim.submit_input(id, turn);
            sim.submit_boost(id, boost);
            None
        },
        ClientToServer::Ping(n) => Some(ServerToClient::Pong(n)),
        ClientToServer::Hello { .. } => None,
    }
}

/// Fractions of a correction are counted in millionths.
pub const PPM: i64 = 1_000_000;

/// Correction fraction for one 1/30 s frame at rate 15/s: 1 - exp(-0.5), rounded down.
pub const CORRECTION_PER_TICK_PPM: i64 = 393_469;

/// Absolute value.
pub open spec fn abs(v: int) -> int {
    if v < 0 { -v } else { v }
}

/// `local` moved toward `server` by the fraction `f` (in millionths) of their gap,
/// rounded away from `local`.
pub open spec fn blend(local: int, server: int, f: int) -> int {
    let d = server - local;
    if d >= 0 {
        local + (d * f + PPM - 1) / (PPM as int)
    } else {
        local - ((-d) * f + PPM - 1) / (PPM as int)
    }
}

/// The shortest signed turn from yaw `a` to yaw `b`, both in `[0, ANGLE_FULL)`.
pub open spec fn angle_gap(a: int, b: int) -> int {
    let d = b - a;
    if d > ANGLE_HALF {
        d - ANGLE_FULL
    } else if d < -ANGLE_HALF {
        d + ANGLE_FULL
    } else {
        d
    }
}

/// Yaw `local` turned toward `server` by the fraction `f` of the shortest gap, normalised.
pub open spec fn blend_angle(local: int, server: int, f: int) -> int {
    (local + (blend(0, angle_gap(local, server), f))) % (ANGLE_FULL as int)
}

/// The local player after a snapshot: position (x and z) and yaw blended toward the
/// server's; boost meter, trailer and the alive flag taken from the server.
pub open spec fn reconcile_spec(local: PlayerView, server: PlayerView, f: int) -> PlayerView {
    PlayerView {
        id: server.id,
        position: Vec3 {
            x: blend(local.position.x as int, server.position.x as int, f) as i64,
            y: local.position.y,
            z: blend(local.position.z as int, server.position.z as int, f) as i64,
        },
        rotation_y: blend_angle(local.rotation_y as int, server.rotation_y as int, f) as i64,
        trailer: server.trailer,
        alive: server.alive,
        boost_meter: server.boost_meter,
    }
}

/// `blend` applied `n` times with the same target.
pub open spec fn blend_iter(local: int, server: int, f: int, n: nat) -> int
    decreases n,
{
    if n == 0 {
        local
    } else {
        blend_iter(blend(local, server, f), server, f, (n - 1) as nat)
    }
}

proof fn lemma_blend_step(local: int, server: int, f: int)
    requires
        0 <= f <= PPM,
    ensures
        abs(server - blend(local, server, f)) * PPM <= abs(server - local) * (PPM - f),
        abs(server - blend(local, server, f)) <= abs(server - local),
{
    let d = server - local;
    let a = abs(d);
    let c = (a * f + PPM - 1) / (PPM as int);
    assert(0 <= a * f <= a * PPM) by (nonlinear_arith)
        requires 0 <= a, 0 <= f <= PPM;
    vstd::arithmetic::div_mod::lemma_fundamental_div_mod(a * f + PPM - 1, PPM as int);
    let r = (a * f + PPM - 1) % (PPM as int);
    assert(0 <= r < PPM);
    assert(c * PPM == a * f + PPM - 1 - r) by (nonlinear_arith)
        requires a * f + PPM - 1 == PPM * c + r;
    assert(c * PPM >= a * f);
    assert(c <= a) by (nonlinear_arith)
        requires c * PPM == a * f + PPM - 1 - r, a * f <= a * PPM, 0 <= r;
    assert((a - c) * PPM <= a * (PPM - f)) by (nonlinear_arith)
        requires c * PPM >= a * f;
    assert(0 <= c) by (nonlinear_arith)
        requires c * PPM == a * f + PPM - 1 - r, 0 <= a * f, r < PPM;
    if d >= 0 {
        assert(abs(server - blend(local, server, f)) == a - c);
    } else {
        assert(abs(server - blend(local, server, f)) == a - c);
    }
}

/// Each correction at fraction `f` shrinks the gap to the server by at least that fraction,
/// and `n` corrections leave at most `(1 - f)^n` of it.
pub proof fn lemma_reconcile_converges(local: int, server: int, f: int, n: nat)
    requires
        0 <= f <= PPM,
    ensures
        abs(server - blend_iter(local, server, f, n)) * pow(PPM as int, n) <= abs(server - local) * pow(PPM - f, n),
    decreases n,
{
    if n == 0 {
        vstd::arithmetic::power::lemma_pow0(PPM as int);
        vstd::arithmetic::power::lemma_pow0(PPM - f);
    } else {
        let b = blend(local, server, f);
        lemma_blend_step(local, server, f);
        lemma_reconcile_converges(b, server, f, (n - 1) as nat);
        let m = (n - 1) as nat;
        let r = abs(server - blend_iter(b, server, f, m));
        let pa = pow(PPM as int, m);
        let pb = pow(PPM - f, m);
        vstd::arithmetic::power::lemma_pow_positive(PPM as int, m);
        lemma_pow_nonneg(PPM - f, m);
        vstd::arithmetic::power::lemma_pow_adds(PPM as int, m, 1);
        vstd::arithmetic::power::lemma_pow_adds(PPM - f, m, 1);
        vstd::arithmetic::power::lemma_pow1(PPM as int);
        vstd::arithmetic::power::lemma_pow1(PPM - f);
        assert(r * pa <= abs(server - b) * pb);
        assert(abs(server - b) * PPM <= abs(server - local) * (PPM - f));
        assert(r * (pa * PPM) <= abs(server - local) * (pb * (PPM - f))) by (nonlinear_arith)
            requires r * pa <= abs(server - b) * pb, abs(server - b) * PPM <= abs(server - local) * (PPM - f),
                0 <= pb, 0 < pa, 0 <= r, 0 <= abs(server - b), 0 <= PPM - f;
    }
}

proof fn lemma_pow_nonneg(b: int, n: nat)
    requires
        0 <= b,
    ensures
        0 <= pow(b, n),
    decreases n,
{
    reveal(pow);
    if n > 0 {
        lemma_pow_nonneg(b, (n - 1) as nat);
        assert(pow(b, n) == b * pow(b, (n - 1) as nat));
        assert(0 <= b * pow(b, (n - 1) as nat)) by (nonlinear_arith)
            requires 0 <= b, 0 <= pow(b, (n - 1) as nat);
    }
}

proof fn lemma_pow_base_mono(a: int, b: int, n: nat)
    requires
        0 <= a <= b,
    ensures
        pow(a, n) <= pow(b, n),
    decreases n,
{
    if n == 0 {
        vstd::arithmetic::power::lemma_pow0(a);
        vstd::arithmetic::power::lemma_pow0(b);
    } else {
        lemma_pow_base_mono(a, b, (n - 1) as nat);
        lemma_pow_nonneg(a, (n - 1) as nat);
        let pa = pow(a, (n - 1) as nat);
        let pb = pow(b, (n - 1) as nat);
        reveal(pow);
        assert(pow(a, n) == a * pa);
        assert(pow(b, n) == b * pb);
        assert(a * pa <= b * pb) by (nonlinear_arith)
            requires 0 <= a <= b, 0 <= pa <= pb;
    }
}

/// At the 30 Hz tick rate (a correction fraction of at least 1 - exp(-0.5) per frame), ten
/// corrections, one third of a second, leave less than 1% of the initial gap.
pub proof fn lemma_reconcile_within_one_percent(local: int, server: int, f: int)
    requires
        CORRECTION_PER_TICK_PPM <= f <= PPM,
        local != server,
    ensures
        abs(server - blend_iter(local, server, f, 10)) * 100 < abs(server - local),
{
    lemma_reconcile_converges(local, server, f, 10);
    lemma_pow_base_mono(PPM - f, 606_531, 10);
    let r = abs(server - blend_iter(local, server, f, 10));
    let a = abs(server - local);
    let big = pow(PPM as int, 10);
    let q = pow(606_531, 10);
    let qf = pow(PPM - f, 10);
    assert(big == 1000000000000000000000000000000000000000000000000000000000000) by {
        reveal_with_fuel(pow, 11);
    }
    assert(q == 6737984801692679365800703894249377995365272851088457845801) by {
        reveal_with_fuel(pow, 11);
    }
    lemma_pow_nonneg(PPM - f, 10);
    assert(r * big <= a * qf);
    assert(r * 100 < a) by (nonlinear_arith)
        requires r * big <= a * qf, 0 <= qf <= q, q * 100 < big, 0 < a, 0 <= r, 0 < big;
}

/// Moves `local` toward `server` by the fraction `f` (millionths) of their gap.
pub fn blend_coord(local: i64, server: i64, f: i64) -> (r: i64)
    requires
        0 <= f <= PPM,
    ensures
        r == blend(local as int, server as int, f as int),
        local <= server ==> local <= r <= server,
        server <= local ==> server <= r <= local,
{
    proof {
        lemma_blend_step(local as int, server as int, f as int);
    }
    let d: i128 = server as i128 - local as i128;
    let a: i128 = if d >= 0 { d } else { -d };
    assert(0 <= a * f <= a * PPM) by (nonlinear_arith)
        requires 0 <= a <= 0x1_0000_0000_0000_0000, 0 <= f <= PPM;
    let c: i128 = (a * f as i128 + PPM as i128 - 1) / PPM as i128;
    if d >= 0 {
        (local as i128 + c) as i64
    } else {
        (local as i128 - c) as i64
    }
}

/// Turns yaw `local` toward `server` by the fraction `f` of the shortest gap; see `blend_angle`.
pub fn blend_yaw(local: i64, server: i64, f: i64) -> (r: i64)
    requires
        0 <= local < ANGLE_FULL,
        0 <= server < ANGLE_FULL,
        0 <= f <= PPM,
    ensures
        r == blend_angle(local as int, server as int, f as int),
        0 <= r < ANGLE_FULL,
{
    let d = server - local;
    let gap = if d > ANGLE_HALF {
        d - ANGLE_FULL
    } else if d < -ANGLE_HALF {
        d + ANGLE_FULL
    } else {
        d
    };
    let c = blend_coord(0, gap, f);
    let t = local + c;
    if t < 0 {
        t + ANGLE_FULL
    } else if t >= ANGLE_FULL {
        t - ANGLE_FULL
    } else {
        t
    }
}

/// Position of player `id` in `ps`, if it is there.
pub open spec fn index_of_id(ps: Seq<PlayerView>, id: PlayerId) -> Option<int> {
    if exists|i: int| 0 <= i < ps.len() && (#[trigger] ps[i]).id == id {
        Some(choose|i: int| 0 <= i < ps.len() && (#[trigger] ps[i]).id == id)
    } else {
        None
    }
}

/// The local player was dead and the snapshot shows it alive: it respawned.
pub open spec fn respawn_seen(local: Seq<PlayerView>, server: Seq<PlayerView>, id: PlayerId) -> bool {
    match (index_of_id(local, id), index_of_id(server, id)) {
        (Some(l), Some(s)) => !local[l].alive && server[s].alive,
        _ => false,
    }
}

/// Players after a newer snapshot: the server's, except the local player, which is
/// blended from its predicted state unless it just respawned.
pub open spec fn merged_players(local: Seq<PlayerView>, server: Seq<PlayerView>, id: PlayerId, f: int) -> Seq<PlayerView> {
    match (index_of_id(local, id), index_of_id(server, id)) {
        (Some(l), Some(s)) => if respawn_seen(local, server, id) {
            server
        } else {
            server.update(s, reconcile_spec(local[l], server[s], f))
        },
        _ => server,
    }
}

/// The local player of a client before any snapshot: at the centre, facing +z.
pub open spec fn local_start(id: PlayerId) -> PlayerView {
    PlayerView {
        id,
        position: Vec3 { x: 0, y: HOVER_HEIGHT, z: 0 },
        rotation_y: 0,
        trailer: seq![Vec3 { x: 0, y: HOVER_HEIGHT, z: 0 }],
        alive: true,
        boost_meter: BOOST_FULL,
    }
}

proof fn lemma_index_of_id(ps: Seq<PlayerView>, id: PlayerId, i: int)
    requires
        player_ids(ps).no_duplicates(),
        0 <= i < ps.len(),
        ps[i].id == id,
    ensures
        index_of_id(ps, id) == Some(i),
{
    assert(ps[i].id == id);
    let j = choose|j: int| 0 <= j < ps.len() && (#[trigger] ps[j]).id == id;
    assert(player_ids(ps)[i] == player_ids(ps)[j]);
}

/// Finds player `id` in a list of players.
pub fn find_player(ps: &Vec<PlayerState>, id: PlayerId) -> (r: Option<usize>)
    requires
        player_ids(player_views(ps@)).no_duplicates(),
    ensures
        r matches Some(i) ==> i < ps@.len() && index_of_id(player_views(ps@), id) == Some(i as int),
        r is None ==> index_of_id(player_views(ps@), id) is None,
{
    let ghost vs = player_views(ps@);
    let mut k: usize = 0;
    while k < ps.len()
        invariant
            k <= ps@.len(),
            vs == player_views(ps@),
            player_ids(vs).no_duplicates(),
            forall|i: int| 0 <= i < k ==> #[trigger] vs[i].id != id,
        decreases ps@.len() - k,
    {
        if ps[k].id == id {
            proof {
                lemma_index_of_id(vs, id, k as int);
            }
            return Some(k);
        }
        k = k + 1;
    }
    None
}

/// A client's local engine: its own player is predicted, everyone else mirrors the
/// server's snapshots.
pub struct ClientSim {
    pub sim: GameSim,
    pub my_id: PlayerId,
    pub last_server_tick: u64,
    /// Set when the last snapshot showed the local player respawned, so that the view
    /// jumps instead of interpolating for one frame.
    pub just_respawned: bool,
}

impl ClientSim {
    pub open spec fn wf(&self) -> bool {
        self.sim.wf()
    }

    /// The local engine after `Welcome { id, world_size }`: the standard configuration in
    /// an arena of the announced size, holding only the local player at the centre.
    /// `None` when the announced size is outside the accepted range.
    pub fn from_welcome(id: PlayerId, world_size: i64) -> (r: Option<ClientSim>)
        ensures
            r is Some <==> UNIT <= world_size <= MAX_WORLD_SIZE,
            r matches Some(c) ==> {
                &&& c.wf()
                &&& c.my_id == id
                &&& c.last_server_tick == 0
                &&& !c.just_respawned
                &&& c.sim@.players == seq![local_start(id)]
                &&& c.sim@.items.len() == 0
                &&& c.sim.cfg == (GameConfig { world_size, ..GameConfig::standard_spec() })
            },
    {
        if world_size < UNIT || world_size > MAX_WORLD_SIZE {
            return None;
        }
        let std_cfg = GameConfig::standard();
        let cfg = GameConfig { world_size, ..std_cfg };
        let mut sim = GameSim::new(cfg);
        let pos = Vec3 { x: 0, y: HOVER_HEIGHT, z: 0 };
        let mut trailer: Vec<Vec3> = Vec::new();
        trailer.push(pos);
        let p = PlayerState { id, position: pos, rotation_y: 0, trailer, alive: true, boost_meter: BOOST_FULL };
        sim.state.players.push(p);
        proof {
            assert(trailer@ =~= seq![pos]);
            assert(player_views(sim.state.players@) =~= seq![local_start(id)]);
            assert(player_ids(player_views(sim.state.players@)) =~= seq![id]);
        }
        Some(ClientSim { sim, my_id: id, last_server_tick: 0, just_respawned: false })
    }

    /// Merges a snapshot. One whose tick is not newer than the last one applied changes
    /// nothing. Otherwise players and items are replaced by the server's; the local player
    /// is taken as the server has it when it just respawned, and otherwise blended toward
    /// it by the fraction `f` (millionths) of the gap in position and yaw, with boost
    /// meter, trailer and alive flag from the server. For a frame of `dt` seconds the
    /// fraction is `1 - exp(-15 dt)`; `CORRECTION_PER_TICK_PPM` is its value for one tick.
    pub fn apply_snapshot(&mut self, world: WorldState, f: i64)
        requires
            old(self).wf(),
            world.wf(),
            0 <= f <= PPM,
        ensures
            world.tick <= old(self).last_server_tick ==> *final(self) == *old(self),
            world.tick > old(self).last_server_tick ==> {
                &&& final(self).wf()
                &&& final(self).last_server_tick == world.tick
                &&& final(self).my_id == old(self).my_id
                &&& final(self).sim.cfg == old(self).sim.cfg
                &&& final(self).sim@.tick == old(self).sim@.tick
                &&& final(self).sim@.items == world.items@
                &&& final(self).sim@.players == merged_players(
                    old(self).sim@.players,
                    player_views(world.players@),
                    old(self).my_id,
                    f as int,
                )
                &&& final(self).just_respawned == if index_of_id(player_views(world.players@), old(self).my_id) is Some {
                    respawn_seen(old(self).sim@.players, player_views(world.players@), old(self).my_id)
                } else {
                    old(self).just_respawned
                }
                &&& final(self).sim.pending_inputs == old(self).sim.pending_inputs
                &&& final(self).sim.pending_boosts == old(self).sim.pending_boosts
            },
    {
        if world.tick <= self.last_server_tick {
            return;
        }
        let ghost lv = self.sim@.players;
        let ghost sv = player_views(world.players@);
        let id = self.my_id;
        let li = find_player(&self.sim.state.players, id);
        let local: Option<(Vec3, i64, bool)> = match li {
            Some(i) => Some((self.sim.state.players[i].position, self.sim.state.players[i].rotation_y, self.sim.state.players[i].alive)),
            None => None,
        };
        let tick = world.tick;
        let mut players = world.players;
        self.sim.state.items = world.items;
        let si = find_player(&players, id);
        match si {
            Some(s) => {
                match local {
                    Some((lp, lr, la)) => {
                        if !la && players[s].alive {
                            self.just_respawned = true;
                        } else {
                            self.just_respawned = false;
                            let sp = players.remove(s);
                            let nx = blend_coord(lp.x, sp.position.x, f);
                            let nz = blend_coord(lp.z, sp.position.z, f);
                            let ny = lp.y;
                            let nr = blend_yaw(lr, sp.rotation_y, f);
                            let np = PlayerState {
                                id: sp.id,
                                position: Vec3 { x: nx, y: ny, z: nz },
                                rotation_y: nr,
                                trailer: sp.trailer,
                                alive: sp.alive,
                                boost_meter: sp.boost_meter,
                            };
                            let ghost mid = players@;
                            players.insert(s, np);
                            proof {
                                let l = li.unwrap() as int;
                                assert(lv[l].wf());
                                assert(np@ == reconcile_spec(lv[l], sv[s as int], f as int));
                                assert(player_views(players@) =~= sv.update(s as int, np@));
                                assert(player_ids(player_views(players@)) =~= player_ids(sv));
                            }
                        }
                    },
                    None => {
                        self.just_respawned = false;
                    },
                }
            },
            None => {},
        }
        self.sim.state.players = players;
        self.last_server_tick = tick;
    }

    /// Predicts one tick of the local player with the commands being pressed, by the same
    /// `advance_player` the server runs; other players are left to the snapshots.
    pub fn predict(&mut self, turn: TurnInput, boost: bool)
        requires
            old(self).wf(),
        ensures
            final(self).wf(),
            final(self).my_id == old(self).my_id,
            final(self).last_server_tick == old(self).last_server_tick,
            final(self).just_respawned == old(self).just_respawned,
            final(self).sim.cfg == old(self).sim.cfg,
            final(self).sim@.items == old(self).sim@.items,
            final(self).sim@.tick == old(self).sim@.tick,
            final(self).sim.pending_inputs == old(self).sim.pending_inputs,
            final(self).sim.pending_boosts == old(self).sim.pending_boosts,
            final(self).sim@.players == match index_of_id(old(self).sim@.players, old(self).my_id) {
                Some(i) => old(self).sim@.players.update(
                    i,
                    advance_player_spec(old(self).sim@.players[i], turn, boost, old(self).sim.cfg),
                ),
                None => old(self).sim@.players,
            },
    {
        let li = find_player(&self.sim.state.players, self.my_id);
        match li {
            Some(i) => {
                let ghost before = self.sim@.players;
                let mut p = self.sim.state.players.remove(i);
                assert(p@ == before[i as int]);
                advance_player(&mut p, turn, boost, &self.sim.cfg);
                self.sim.state.players.insert(i, p);
                proof {
                    assert(player_views(self.sim.state.players@) =~= before.update(i as int, p@));
                    assert(player_ids(player_views(self.sim.state.players@)) =~= player_ids(before));
                }
            },
            None => {},
        }
    }
}

} // verus!
