use vstd::prelude::*;
use crate::geometry::{dist_sq_spec, TRIG_ONE, sin_spec, cos_spec};
use crate::model::{GameConfig, Item, PlayerView, TurnInput, BOOST_FULL, MAX_PLAYER_SPEED};
use crate::motion::{
    advance_player_spec, beyond_walls, boost_active, boost_after, step_distance, yaw_after,
};
use crate::pending::PendingCommands;
use crate::sim::{after_collisions, item_taken, items_kept, moved_players, GameSim};
use crate::tick::{killed, tick_player_spec, PLAYER_CONTACT_SQ};
use crate::trailer::{lemma_chain_len, rest, forward_spec, target_trailer_len};

verus! {

/// The deterministic part of a tick as a function of the world, the waiting commands and
/// the configuration: players and items after it.
pub open spec fn tick_outcome(
    players: Seq<PlayerView>,
    items: Seq<Item>,
    inputs: PendingCommands<TurnInput>,
    boosts: PendingCommands<bool>,
    cfg: GameConfig,
) -> (Seq<PlayerView>, Seq<Item>) {
    (
        after_collisions(moved_players(players, items, inputs, boosts, cfg)),
        items_kept(items, |j: int| item_taken(players, items, inputs, boosts, cfg, j), items.len() as int),
    )
}

/// Two simulations with the same world, configuration and waiting commands reach the same
/// world through the deterministic part of a tick (`GameSim::advance`): only respawn
/// points and spawned items are drawn at random.
pub proof fn lemma_tick_is_deterministic(a: GameSim, b: GameSim)
    requires
        a@ == b@,
        a.cfg == b.cfg,
        a.pending_inputs == b.pending_inputs,
        a.pending_boosts == b.pending_boosts,
    ensures
        tick_outcome(a@.players, a@.items, a.pending_inputs, a.pending_boosts, a.cfg)
            == tick_outcome(b@.players, b@.items, b.pending_inputs, b.pending_boosts, b.cfg),
{
}

/// The boost meter after `n` ticks with the same boost command.
pub open spec fn boost_after_ticks(meter: int, pressed: bool, n: nat) -> int
    decreases n,
{
    if n == 0 {
        meter
    } else {
        boost_after_ticks(boost_after(meter, pressed), pressed, (n - 1) as nat)
    }
}

/// The meter never leaves `[0, BOOST_FULL]`, whatever the commands.
pub proof fn lemma_boost_bounded(meter: int, pressed: bool)
    requires
        0 <= meter <= BOOST_FULL,
    ensures
        0 <= boost_after(meter, pressed) <= BOOST_FULL,
{
}

proof fn lemma_drain_linear(k: nat)
    requires
        k <= 60,
    ensures
        boost_after_ticks(BOOST_FULL as int, true, k) == BOOST_FULL - 5 * k,
    decreases k,
{
    if k > 0 {
        lemma_drain_shift(BOOST_FULL as int, (k - 1) as nat);
        lemma_drain_linear((k - 1) as nat);
    }
}

proof fn lemma_drain_shift(meter: int, k: nat)
    ensures
        boost_after_ticks(meter, true, k + 1) == boost_after(boost_after_ticks(meter, true, k), true),
    decreases k,
{
    if k > 0 {
        lemma_drain_shift(boost_after(meter, true), (k - 1) as nat);
        assert(boost_after_ticks(meter, true, k) == boost_after_ticks(boost_after(meter, true), true, (k - 1) as nat));
        assert(boost_after_ticks(meter, true, k + 1) == boost_after_ticks(boost_after(meter, true), true, k));
        assert(((k - 1) as nat + 1) as nat == k);
    } else {
        assert(boost_after_ticks(boost_after(meter, true), true, 0) == boost_after(meter, true));
    }
}

proof fn lemma_regen_shift(meter: int, k: nat)
    ensures
        boost_after_ticks(meter, false, k + 1) == boost_after(boost_after_ticks(meter, false, k), false),
    decreases k,
{
    if k > 0 {
        lemma_regen_shift(boost_after(meter, false), (k - 1) as nat);
        assert(boost_after_ticks(meter, false, k) == boost_after_ticks(boost_after(meter, false), false, (k - 1) as nat));
        assert(boost_after_ticks(meter, false, k + 1) == boost_after_ticks(boost_after(meter, false), false, k));
        assert(((k - 1) as nat + 1) as nat == k);
    } else {
        assert(boost_after_ticks(boost_after(meter, false), false, 0) == boost_after(meter, false));
    }
}

proof fn lemma_regen_linear(k: nat)
    requires
        k <= 150,
    ensures
        boost_after_ticks(0, false, k) == 2 * k,
    decreases k,
{
    if k > 0 {
        lemma_regen_shift(0, (k - 1) as nat);
        lemma_regen_linear((k - 1) as nat);
    }
}

/// Continuous boosting empties a full meter in exactly 60 ticks (2 s); continuous
/// coasting fills an empty one in exactly 150 ticks (5 s).
pub proof fn lemma_boost_timings()
    ensures
        boost_after_ticks(BOOST_FULL as int, true, 59) > 0,
        boost_after_ticks(BOOST_FULL as int, true, 60) == 0,
        boost_after_ticks(0, false, 149) < BOOST_FULL,
        boost_after_ticks(0, false, 150) == BOOST_FULL,
{
    lemma_drain_linear(59);
    lemma_drain_linear(60);
    lemma_regen_linear(149);
    lemma_regen_linear(150);
}

/// In one tick a player's trailer gains or loses at most one entry, unless the player
/// respawns (respawning is not part of this deterministic step).
pub proof fn lemma_trailer_changes_by_at_most_one(
    players: Seq<PlayerView>,
    items: Seq<Item>,
    inputs: PendingCommands<TurnInput>,
    boosts: PendingCommands<bool>,
    cfg: GameConfig,
    i: int,
)
    requires
        0 <= i < players.len(),
        players[i].trailer.len() >= 1,
        cfg.wf(),
    ensures
        ({
            let after = after_collisions(moved_players(players, items, inputs, boosts, cfg))[i];
            -1 <= after.trailer.len() - players[i].trailer.len() <= 1
        }),
{
    let p = players[i];
    let turn = crate::sim::turn_command(inputs, p.id);
    let boost = crate::sim::boost_command(boosts, p.id);
    let m = advance_player_spec(p, turn, boost, cfg);
    if m.alive {
        let pick = crate::tick::first_pickup(m.position, items, 0);
        let n = target_trailer_len(m.trailer.len() as int, pick is Some, cfg.initial_length as int);
        lemma_chain_len(m.position, forward_spec(m.rotation_y as int), true, rest(m.trailer, 1), (n - 1) as nat);
        assert(n >= 1);
    }
    let ms = moved_players(players, items, inputs, boosts, cfg);
    assert(ms[i] == tick_player_spec(p, items, turn, boost, cfg).0);
    assert(after_collisions(ms)[i].trailer == ms[i].trailer);
}

/// The trailer length after `n` ticks without pickups.
pub open spec fn length_without_pickups(cur: int, init: int, n: nat) -> int
    decreases n,
{
    if n == 0 {
        cur
    } else {
        length_without_pickups(target_trailer_len(cur, false, init), init, (n - 1) as nat)
    }
}

/// Without pickups the trailer length moves one entry per tick toward `initial_length`,
/// reaches it after at most the distance between them, and then stays there.
pub proof fn lemma_trailer_settles(cur: int, init: int, n: nat)
    requires
        n >= cur - init,
        n >= init - cur,
    ensures
        length_without_pickups(cur, init, n) == init,
    decreases n,
{
    if n > 0 {
        lemma_trailer_settles(target_trailer_len(cur, false, init), init, (n - 1) as nat);
    }
}

/// A living player inside the arena moves by exactly one tick of forward motion, without
/// any clamping, and is dead after the tick exactly when that motion takes it beyond a wall.
pub proof fn lemma_wall_death(p: PlayerView, turn: TurnInput, pressed: bool, cfg: GameConfig)
    requires
        p.alive,
        cfg.wf(),
        -cfg.world_size <= p.position.x <= cfg.world_size,
        -cfg.world_size <= p.position.z <= cfg.world_size,
    ensures
        ({
            let q = advance_player_spec(p, turn, pressed, cfg);
            let yaw = yaw_after(p.rotation_y as int, turn, cfg);
            let d = step_distance(cfg, boost_active(p.boost_meter as int, pressed));
            &&& q.position.x == p.position.x + (d * sin_spec(yaw)) / (TRIG_ONE as int)
            &&& q.position.z == p.position.z + (d * cos_spec(yaw)) / (TRIG_ONE as int)
            &&& q.alive == !beyond_walls(q.position, cfg)
        }),
{
    let yaw = yaw_after(p.rotation_y as int, turn, cfg);
    let d = step_distance(cfg, boost_active(p.boost_meter as int, pressed));
    assert(0 <= yaw < 360_000);
    crate::geometry::lemma_trig_bounds(yaw);
    assert(0 <= d <= 2 * MAX_PLAYER_SPEED) by {
        vstd::arithmetic::div_mod::lemma_div_is_ordered(2 * cfg.player_speed, 2 * MAX_PLAYER_SPEED, 30);
        vstd::arithmetic::div_mod::lemma_div_is_ordered(cfg.player_speed as int, 2 * MAX_PLAYER_SPEED, 30);
    }
    let sx = sin_spec(yaw);
    let sz = cos_spec(yaw);
    assert(-2_000_000_000_000_000 <= d * sx <= 2_000_000_000_000_000) by (nonlinear_arith)
        requires 0 <= d <= 2_000_000_000, -1_000_000 <= sx <= 1_000_000;
    assert(-2_000_000_000_000_000 <= d * sz <= 2_000_000_000_000_000) by (nonlinear_arith)
        requires 0 <= d <= 2_000_000_000, -1_000_000 <= sz <= 1_000_000;
    vstd::arithmetic::div_mod::lemma_div_is_ordered(d * sx, 2_000_000_000_000_000, 1_000_000);
    vstd::arithmetic::div_mod::lemma_div_is_ordered(-2_000_000_000_000_000, d * sx, 1_000_000);
    vstd::arithmetic::div_mod::lemma_div_is_ordered(d * sz, 2_000_000_000_000_000, 1_000_000);
    vstd::arithmetic::div_mod::lemma_div_is_ordered(-2_000_000_000_000_000, d * sz, 1_000_000);
}

/// Two living players whose bodies touch both die: each is judged against the other's
/// position before any death is applied.
pub proof fn lemma_head_on_kills_both(ps: Seq<PlayerView>, a: int, b: int)
    requires
        0 <= a < ps.len(),
        0 <= b < ps.len(),
        a != b,
        ps[a].alive,
        ps[b].alive,
        dist_sq_spec(ps[a].position, ps[b].position) <= PLAYER_CONTACT_SQ,
    ensures
        killed(ps, a),
        killed(ps, b),
{
    assert(dist_sq_spec(ps[b].position, ps[a].position) == dist_sq_spec(ps[a].position, ps[b].position)) by (nonlinear_arith);
    assert(ps[b].alive);
    assert(ps[a].alive);
}

} // verus!
