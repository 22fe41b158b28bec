use vstd::prelude::*;
use crate::geometry::{Vec3, dist_sq_spec, dist_sq};
use crate::model::{player_views, GameConfig, Item, PlayerState, PlayerView, TurnInput, MAX_TRAILER_LEN};
use crate::motion::{advance_player_spec, advance_player};
use crate::trailer::{target_trailer_len, trailer_spec, rebuild_trailer};

verus! {

/// Squared pickup reach: 0.7 units.
pub const PICKUP_REACH_SQ: i128 = 490_000;

/// Squared contact distance of two players: two radii of 0.5.
pub const PLAYER_CONTACT_SQ: i128 = 1_000_000;

/// Squared contact distance of a player and a cart: 0.5 + 0.35.
pub const CART_CONTACT_SQ: i128 = 722_500;

/// An optional index, widened.
pub open spec fn opt_index(r: Option<usize>) -> Option<int> {
    match r {
        Some(i) => Some(i as int),
        None => None,
    }
}

/// A player at `pos` reaches the item.
pub open spec fn reaches(pos: Vec3, it: Item) -> bool {
    dist_sq_spec(pos, it.pos) <= PICKUP_REACH_SQ
}

/// Index of the first item from `k` on that `pos` reaches.
pub open spec fn first_pickup(pos: Vec3, items: Seq<Item>, k: int) -> Option<int>
    decreases items.len() - k,
{
    if k < 0 || k >= items.len() {
        None
    } else if reaches(pos, items[k]) {
        Some(k)
    } else {
        first_pickup(pos, items, k + 1)
    }
}

/// A player after one tick of motion, pickup and trailer rebuild, with the index of the
/// item it picked up, if any. A player that is dead, or dies at a wall, picks up nothing
/// and keeps its trailer.
pub open spec fn tick_player_spec(
    p: PlayerView,
    items: Seq<Item>,
    turn: TurnInput,
    pressed: bool,
    cfg: GameConfig,
) -> (PlayerView, Option<int>) {
    let m = advance_player_spec(p, turn, pressed, cfg);
    if !m.alive {
        (m, None)
    } else {
        let pick = first_pickup(m.position, items, 0);
        let n = target_trailer_len(m.trailer.len() as int, pick is Some, cfg.initial_length as int);
        (
            PlayerView {
                id: m.id,
                position: m.position,
                rotation_y: m.rotation_y,
                trailer: trailer_spec(m.position, m.rotation_y as int, m.trailer, n),
                alive: true,
                boost_meter: m.boost_meter,
            },
            pick,
        )
    }
}

/// Finds the first item that a player at `pos` reaches.
pub fn find_pickup(pos: Vec3, items: &Vec<Item>) -> (r: Option<usize>)
    requires
        pos.wf(),
        forall|i: int| 0 <= i < items@.len() ==> (#[trigger] items@[i]).pos.wf(),
    ensures
        r matches Some(i) ==> first_pickup(pos, items@, 0) == Some(i as int),
        r is None ==> first_pickup(pos, items@, 0) is None,
{
    let mut k: usize = 0;
    while k < items.len()
        invariant
            k <= items@.len(),
            first_pickup(pos, items@, 0) == first_pickup(pos, items@, k as int),
            pos.wf(),
            forall|i: int| 0 <= i < items@.len() ==> (#[trigger] items@[i]).pos.wf(),
        decreases items@.len() - k,
    {
        let d = dist_sq(pos, items[k].pos);
        if d <= PICKUP_REACH_SQ {
            return Some(k);
        }
        k = k + 1;
    }
    None
}

/// Advances one player by a tick: motion, wall test, pickup, trailer length and geometry.
/// Returns the index of the item it picked up.
pub fn tick_player(
    p: &mut PlayerState,
    items: &Vec<Item>,
    turn: TurnInput,
    pressed: bool,
    cfg: &GameConfig,
) -> (r: Option<usize>)
    requires
        old(p).wf(),
        cfg.wf(),
        forall|i: int| 0 <= i < items@.len() ==> (#[trigger] items@[i]).pos.wf(),
    ensures
        (final(p)@, opt_index(r)) == tick_player_spec(old(p)@, items@, turn, pressed, *cfg),
        final(p).wf(),
        r matches Some(i) ==> i < items@.len(),
{
    advance_player(p, turn, pressed, cfg);
    if !p.alive {
        return None;
    }
    let pick = find_pickup(p.position, items);
    let cur = p.trailer.len();
    let init = cfg.initial_length;
    let grew = pick.is_some();
    let n: usize = if grew {
        if cur < MAX_TRAILER_LEN { cur + 1 } else { cur }
    } else if cur > init {
        cur - 1
    } else if cur < init {
        cur + 1
    } else {
        cur
    };
    let t = rebuild_trailer(p.position, p.rotation_y, &p.trailer, n);
    p.trailer = t;
    proof {
        if let Some(i) = pick {
            lemma_first_pickup_in_range(p.position, items@, 0);
        }
    }
    pick
}

/// The player at `pos` touches a cart (entry 1 or later) of `trailer`.
pub open spec fn touches_trailer(pos: Vec3, trailer: Seq<Vec3>) -> bool {
    exists|k: int| 1 <= k < trailer.len() && dist_sq_spec(pos, #[trigger] trailer[k]) <= CART_CONTACT_SQ
}

/// Player `a` runs into player `b`: into its body or into one of its carts.
pub open spec fn collides(a: PlayerView, b: PlayerView) -> bool {
    dist_sq_spec(a.position, b.position) <= PLAYER_CONTACT_SQ || touches_trailer(a.position, b.trailer)
}

/// Player `i` is alive and runs into another living player.
pub open spec fn killed(ps: Seq<PlayerView>, i: int) -> bool {
    ps[i].alive && exists|j: int| 0 <= j < ps.len() && j != i && (#[trigger] ps[j]).alive && collides(ps[i], ps[j])
}

/// Tests whether a player at `pos` touches a cart of `trailer`.
pub fn touches_trailer_exec(pos: Vec3, trailer: &Vec<Vec3>) -> (r: bool)
    requires
        pos.wf(),
        forall|i: int| 0 <= i < trailer@.len() ==> (#[trigger] trailer@[i]).wf(),
    ensures
        r == touches_trailer(pos, trailer@),
{
    let mut k: usize = 1;
    while k < trailer.len()
        invariant
            1 <= k,
            pos.wf(),
            forall|i: int| 0 <= i < trailer@.len() ==> (#[trigger] trailer@[i]).wf(),
            forall|j: int| 1 <= j < k && j < trailer@.len() ==> dist_sq_spec(pos, #[trigger] trailer@[j]) > CART_CONTACT_SQ,
        decreases trailer@.len() - k,
    {
        if dist_sq(pos, trailer[k]) <= CART_CONTACT_SQ {
            return true;
        }
        k = k + 1;
    }
    false
}

/// Tests whether player `a` runs into player `b`.
pub fn collides_exec(a: &PlayerState, b: &PlayerState) -> (r: bool)
    requires
        a.wf(),
        b.wf(),
    ensures
        r == collides(a@, b@),
{
    if dist_sq(a.position, b.position) <= PLAYER_CONTACT_SQ {
        return true;
    }
    touches_trailer_exec(a.position, &b.trailer)
}

/// Scans every ordered pair of distinct living players and reports, for each player,
/// whether it is killed. Nothing is changed during the scan, so each verdict rests on the
/// same positions.
pub fn detect_collisions(players: &Vec<PlayerState>) -> (r: Vec<bool>)
    requires
        forall|i: int| 0 <= i < players@.len() ==> (#[trigger] players@[i]).wf(),
    ensures
        r@.len() == players@.len(),
        forall|i: int| 0 <= i < r@.len() ==> #[trigger] r@[i] == killed(player_views(players@), i),
{
    let ghost ps = player_views(players@);
    let mut out: Vec<bool> = Vec::new();
    let mut i: usize = 0;
    while i < players.len()
        invariant
            i <= players@.len(),
            out@.len() == i,
            ps == player_views(players@),
            forall|a: int| 0 <= a < players@.len() ==> (#[trigger] players@[a]).wf(),
            forall|a: int| 0 <= a < i ==> #[trigger] out@[a] == killed(ps, a),
        decreases players@.len() - i,
    {
        let mut hit = false;
        if players[i].alive {
            let mut j: usize = 0;
            while j < players.len() && !hit
                invariant
                    i < players@.len(),
                    j <= players@.len(),
                    ps == player_views(players@),
                    players@[i as int].alive,
                    forall|a: int| 0 <= a < players@.len() ==> (#[trigger] players@[a]).wf(),
                    hit ==> killed(ps, i as int),
                    !hit ==> forall|b: int| 0 <= b < j && b != i && (#[trigger] ps[b]).alive ==> !collides(ps[i as int], ps[b]),
                decreases players@.len() - j,
            {
                if j != i && players[j].alive {
                    if collides_exec(&players[i], &players[j]) {
                        assert(ps[j as int] == players@[j as int]@);
                        hit = true;
                    }
                }
                j = j + 1;
            }
        }
        proof {
            if !hit && players@[i as int].alive {
                assert forall|b: int| 0 <= b < ps.len() && b != i && (#[trigger] ps[b]).alive implies !collides(ps[i as int], ps[b]) by {}
            }
        }
        out.push(hit);
        i = i + 1;
    }
    out
}

proof fn lemma_first_pickup_in_range(pos: Vec3, items: Seq<Item>, k: int)
    ensures
        first_pickup(pos, items, k) matches Some(i) ==> k <= i < items.len(),
    decreases items.len() - k,
{
    if k >= 0 && k < items.len() && !reaches(pos, items[k]) {
        lemma_first_pickup_in_range(pos, items, k + 1);
    }
}

} // verus!
