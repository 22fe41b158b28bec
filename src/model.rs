use vstd::prelude::*;
use crate::geometry::{Vec3, ANGLE_FULL, TICKS_PER_SECOND, UNIT};

verus! {

/// Opaque player identifier: the 128-bit value of a random (version 4) UUID.
pub type PlayerId = u128;

/// Identifier of a collectible item: the 128-bit value of a random UUID.
pub type ItemId = u128;

/// Boost meter when full (1.0); the meter counts in steps of 1/300.
pub const BOOST_FULL: i64 = 300;

/// Meter drained by one tick of active boost: 0.5 per second.
pub const BOOST_DRAIN_PER_TICK: i64 = 5;

/// Meter regained by one tick without boost: 0.2 per second.
pub const BOOST_REGEN_PER_TICK: i64 = 2;

/// Hover height of a player.
pub const HOVER_HEIGHT: i64 = 500;

/// Height at which items float.
pub const ITEM_HEIGHT: i64 = 300;

/// Radius of a player.
pub const PLAYER_RADIUS: i64 = 500;

/// Distance kept between a spawn position and the walls.
pub const SPAWN_MARGIN: i64 = 15_000;

/// Smallest half-extent of the spawn area.
pub const MIN_SPAWN_RANGE: i64 = 5_000;

/// Largest accepted half-extent of the arena.
pub const MAX_WORLD_SIZE: i64 = 1_000_000_000;

/// Largest accepted player speed, per second.
pub const MAX_PLAYER_SPEED: i64 = 1_000_000_000;

/// Largest accepted turn speed, per second: one full turn per tick.
pub const MAX_TURN_SPEED: i64 = 10_800_000;

/// Capacity of a trailer: it grows no further.
pub const MAX_TRAILER_LEN: usize = 1_000_000_000;

/// One discrete turning command.
#[derive(Clone, Copy, Debug, PartialEq, Eq, Structural)]
pub enum TurnInput {
    Left,
    Right,
    Straight,
}

/// The state of one player.
#[derive(Clone, Debug)]
pub struct PlayerState {
    pub id: PlayerId,
    pub position: Vec3,
    /// Yaw in thousandths of a degree, kept in `[0, ANGLE_FULL)`.
    pub rotation_y: i64,
    /// Index 0 is the player's own position; then the carts, nearest first.
    pub trailer: Vec<Vec3>,
    pub alive: bool,
    /// Fuel for the speed boost, from 0 to `BOOST_FULL`.
    pub boost_meter: i64,
}

/// Mathematical model of a player: the trailer as a sequence.
pub struct PlayerView {
    pub id: PlayerId,
    pub position: Vec3,
    pub rotation_y: i64,
    pub trailer: Seq<Vec3>,
    pub alive: bool,
    pub boost_meter: i64,
}

impl PlayerView {
    /// Coordinates in range, yaw normalised, a non-empty trailer, meter within bounds.
    pub open spec fn wf(self) -> bool {
        &&& self.position.wf()
        &&& 0 <= self.rotation_y < ANGLE_FULL
        &&& 1 <= self.trailer.len() <= MAX_TRAILER_LEN
        &&& forall|i: int| 0 <= i < self.trailer.len() ==> (#[trigger] self.trailer[i]).wf()
        &&& 0 <= self.boost_meter <= BOOST_FULL
    }
}

impl View for PlayerState {
    type V = PlayerView;

    open spec fn view(&self) -> PlayerView {
        PlayerView {
            id: self.id,
            position: self.position,
            rotation_y: self.rotation_y,
            trailer: self.trailer@,
            alive: self.alive,
            boost_meter: self.boost_meter,
        }
    }
}

impl PlayerState {
    pub open spec fn wf(&self) -> bool {
        self@.wf()
    }
}

/// A collectible item.
#[derive(Clone, Copy, Debug, PartialEq, Eq, Structural)]
pub struct Item {
    pub pos: Vec3,
    pub id: ItemId,
}

/// Identifiers of a sequence of players.
pub open spec fn player_ids(players: Seq<PlayerView>) -> Seq<PlayerId> {
    players.map_values(|p: PlayerView| p.id)
}

/// Models of a sequence of players.
pub open spec fn player_views(players: Seq<PlayerState>) -> Seq<PlayerView> {
    players.map_values(|p: PlayerState| p@)
}

/// The full state of the world at one tick.
#[derive(Clone, Debug)]
pub struct WorldState {
    /// Half-extent of the square arena.
    pub world_size: i64,
    /// Players, in the order they joined; identifiers are distinct.
    pub players: Vec<PlayerState>,
    /// Items, in the order they spawned; identifiers are distinct.
    pub items: Vec<Item>,
    pub tick: u64,
}

impl WorldState {
    /// Every player and item is well formed, and identifiers are unique.
    pub open spec fn wf(&self) -> bool {
        &&& forall|i: int| 0 <= i < self.players@.len() ==> (#[trigger] self.players@[i]).wf()
        &&& forall|i: int| 0 <= i < self.items@.len() ==> (#[trigger] self.items@[i]).pos.wf()
        &&& player_ids(player_views(self.players@)).no_duplicates()
    }
}

/// Tuning of one session; lengths are in thousandths of a unit, angles in
/// thousandths of a degree, speeds per second.
#[derive(Clone, Copy, Debug)]
pub struct GameConfig {
    pub world_size: i64,
    pub player_speed: i64,
    pub turn_speed: i64,
    pub initial_length: usize,
    pub item_spawn_every_ticks: u64,
}

impl GameConfig {
    /// The ranges the engine accepts.
    pub open spec fn wf(&self) -> bool {
        &&& UNIT <= self.world_size <= MAX_WORLD_SIZE
        &&& 0 <= self.player_speed <= MAX_PLAYER_SPEED
        &&& 0 <= self.turn_speed <= MAX_TURN_SPEED
        &&& 1 <= self.initial_length <= MAX_TRAILER_LEN
        &&& self.item_spawn_every_ticks >= 1
    }

    /// The standard session: a 256 x 256 arena, speed 12, turn rate 2.5 rad/s
    /// (143.239 degrees/s), two carts, an item every 20 ticks.
    pub fn standard() -> (r: GameConfig)
        ensures
            r.wf(),
            r.world_size == 128 * UNIT,
            r.player_speed == 12 * UNIT,
            r.turn_speed == 143_239,
            r.initial_length == 3,
            r.item_spawn_every_ticks == 20,
    {
        GameConfig {
            world_size: 128 * UNIT,
            player_speed: 12 * UNIT,
            turn_speed: 143_239,
            initial_length: 3,
            item_spawn_every_ticks: 20,
        }
    }

    /// The standard session, as a value.
    pub open spec fn standard_spec() -> GameConfig {
        GameConfig {
            world_size: 128_000,
            player_speed: 12_000,
            turn_speed: 143_239,
            initial_length: 3,
            item_spawn_every_ticks: 20,
        }
    }

    /// Yaw change of one tick of turning.
    pub open spec fn turn_per_tick(&self) -> int {
        self.turn_speed as int / TICKS_PER_SECOND as int
    }
}

impl Default for GameConfig {
    fn default() -> (r: GameConfig)
        ensures
            r.wf(),
            r.world_size == 128 * UNIT,
            r.player_speed == 12 * UNIT,
            r.turn_speed == 143_239,
            r.initial_length == 3,
            r.item_spawn_every_ticks == 20,
    {
        GameConfig::standard()
    }
}

} // verus!
