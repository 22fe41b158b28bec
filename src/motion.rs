use vstd::prelude::*;
use crate::geometry::{
    Vec3, ANGLE_FULL, TICKS_PER_SECOND, TRIG_ONE, sin_spec, cos_spec, clamp_coord_spec,
    sin_approx, cos_approx, div_floor, clamp_coord,
};
use crate::model::{
    GameConfig, PlayerState, PlayerView, TurnInput, BOOST_FULL, BOOST_DRAIN_PER_TICK, BOOST_REGEN_PER_TICK,
    HOVER_HEIGHT, PLAYER_RADIUS,
};

verus! {

/// Boost takes effect only when requested and the meter is not empty.
pub open spec fn boost_active(meter: int, pressed: bool) -> bool {
    pressed && meter > 0
}

/// The meter after one tick: drained while boosting, regained otherwise, kept in `[0, BOOST_FULL]`.
pub open spec fn boost_after(meter: int, pressed: bool) -> int {
    if boost_active(meter, pressed) {
        if meter - BOOST_DRAIN_PER_TICK < 0 { 0 } else { meter - BOOST_DRAIN_PER_TICK }
    } else {
        if meter + BOOST_REGEN_PER_TICK > BOOST_FULL { BOOST_FULL as int } else { meter + BOOST_REGEN_PER_TICK }
    }
}

/// Yaw change that one tick of a turn command makes.
pub open spec fn turn_delta(turn: TurnInput, cfg: GameConfig) -> int {
    match turn {
        TurnInput::Left => cfg.turn_per_tick(),
        TurnInput::Right => -cfg.turn_per_tick(),
        TurnInput::Straight => 0,
    }
}

/// Yaw after one tick of a turn command, normalised to `[0, ANGLE_FULL)`.
pub open spec fn yaw_after(yaw: int, turn: TurnInput, cfg: GameConfig) -> int {
    (yaw + turn_delta(turn, cfg)) % (ANGLE_FULL as int)
}

/// Distance covered in one tick, doubled under boost.
pub open spec fn step_distance(cfg: GameConfig, active: bool) -> int {
    if active {
        2 * cfg.player_speed / TICKS_PER_SECOND as int
    } else {
        cfg.player_speed as int / TICKS_PER_SECOND as int
    }
}

/// A coordinate moved by `dist` along a direction component `t` (scale `TRIG_ONE`).
pub open spec fn move_coord(c: int, dist: int, t: int) -> int {
    clamp_coord_spec(c + (dist * t) / (TRIG_ONE as int))
}

/// Largest coordinate magnitude at which a player survives.
pub open spec fn wall_limit(cfg: GameConfig) -> int {
    cfg.world_size - PLAYER_RADIUS
}

/// The position lies beyond a wall on either horizontal axis.
pub open spec fn beyond_walls(pos: Vec3, cfg: GameConfig) -> bool {
    pos.x < -wall_limit(cfg) || pos.x > wall_limit(cfg) || pos.z < -wall_limit(cfg) || pos.z
        > wall_limit(cfg)
}

/// One tick of boost, turning, forward motion and the wall test for a living player;
/// a dead player is left as it is.
pub open spec fn advance_player_spec(
    p: PlayerView,
    turn: TurnInput,
    pressed: bool,
    cfg: GameConfig,
) -> PlayerView {
    if !p.alive {
        p
    } else {
        let active = boost_active(p.boost_meter as int, pressed);
        let yaw = yaw_after(p.rotation_y as int, turn, cfg);
        let d = step_distance(cfg, active);
        let pos = Vec3 {
            x: move_coord(p.position.x as int, d, sin_spec(yaw)) as i64,
            y: HOVER_HEIGHT,
            z: move_coord(p.position.z as int, d, cos_spec(yaw)) as i64,
        };
        PlayerView {
            id: p.id,
            position: pos,
            rotation_y: yaw as i64,
            trailer: p.trailer,
            alive: !beyond_walls(pos, cfg),
            boost_meter: boost_after(p.boost_meter as int, pressed) as i64,
        }
    }
}

/// Updates the boost meter for one tick; returns the new meter and whether boost was active.
pub fn update_boost(meter: i64, pressed: bool) -> (r: (i64, bool))
    requires
        0 <= meter <= BOOST_FULL,
    ensures
        r.0 == boost_after(meter as int, pressed),
        r.1 == boost_active(meter as int, pressed),
        0 <= r.0 <= BOOST_FULL,
{
    let active = pressed && meter > 0;
    if active {
        let m = meter - BOOST_DRAIN_PER_TICK;
        (if m < 0 { 0 } else { m }, true)
    } else {
        let m = meter + BOOST_REGEN_PER_TICK;
        (if m > BOOST_FULL { BOOST_FULL } else { m }, false)
    }
}

/// Applies one tick of a turn command to a normalised yaw.
pub fn apply_turn(yaw: i64, turn: TurnInput, cfg: &GameConfig) -> (r: i64)
    requires
        0 <= yaw < ANGLE_FULL,
        cfg.wf(),
    ensures
        r == yaw_after(yaw as int, turn, *cfg),
        0 <= r < ANGLE_FULL,
{
    let step = cfg.turn_speed / TICKS_PER_SECOND;
    let t = match turn {
        TurnInput::Left => yaw + step,
        TurnInput::Right => yaw - step,
        TurnInput::Straight => yaw,
    };
    if t < 0 {
        t + ANGLE_FULL
    } else if t >= ANGLE_FULL {
        t - ANGLE_FULL
    } else {
        t
    }
}

/// Moves a coordinate by `dist` along a direction component.
fn move_coord_exec(c: i64, dist: i64, t: i64) -> (r: i64)
    requires
        0 <= dist <= 2 * crate::model::MAX_PLAYER_SPEED,
        -TRIG_ONE <= t <= TRIG_ONE,
    ensures
        r == move_coord(c as int, dist as int, t as int),
{
    assert(-2_000_000_000_000_000 <= (dist as int) * (t as int) <= 2_000_000_000_000_000)
        by (nonlinear_arith)
        requires 0 <= dist <= 2_000_000_000, -1_000_000 <= t <= 1_000_000;
    let prod: i128 = dist as i128 * t as i128;
    let delta = div_floor(prod, TRIG_ONE as i128);
    proof {
        vstd::arithmetic::div_mod::lemma_div_is_ordered(prod as int, 2_000_000_000_000_000, 1_000_000);
        vstd::arithmetic::div_mod::lemma_div_is_ordered(-2_000_000_000_000_000, prod as int, 1_000_000);
    }
    clamp_coord(c as i128 + delta)
}

/// Advances one player by one tick: boost, turn, forward motion and the wall test.
/// The same function drives the server and a predicting client.
pub fn advance_player(p: &mut PlayerState, turn: TurnInput, pressed: bool, cfg: &GameConfig)
    requires
        old(p).wf(),
        cfg.wf(),
    ensures
        final(p)@ == advance_player_spec(old(p)@, turn, pressed, *cfg),
        final(p).wf(),
{
    if !p.alive {
        return;
    }
    let (meter, active) = update_boost(p.boost_meter, pressed);
    let yaw = apply_turn(p.rotation_y, turn, cfg);
    let dist = if active {
        2 * cfg.player_speed / TICKS_PER_SECOND
    } else {
        cfg.player_speed / TICKS_PER_SECOND
    };
    proof {
        vstd::arithmetic::div_mod::lemma_div_is_ordered(2 * cfg.player_speed, 2 * crate::model::MAX_PLAYER_SPEED, 30);
        vstd::arithmetic::div_mod::lemma_div_is_ordered(cfg.player_speed as int, 2 * crate::model::MAX_PLAYER_SPEED, 30);
    }
    let s = sin_approx(yaw);
    let c = cos_approx(yaw);
    let x = move_coord_exec(p.position.x, dist, s);
    let z = move_coord_exec(p.position.z, dist, c);
    let pos = Vec3 { x, y: HOVER_HEIGHT, z };
    let lim = cfg.world_size - PLAYER_RADIUS;
    let beyond = x < -lim || x > lim || z < -lim || z > lim;
    p.position = pos;
    p.rotation_y = yaw;
    p.boost_meter = meter;
    p.alive = !beyond;
}

} // verus!
