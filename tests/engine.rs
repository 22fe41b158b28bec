use arena_sim::geometry::{cos_approx, isqrt, sin_approx, Vec3, TRIG_ONE};
use arena_sim::model::{GameConfig, PlayerState, TurnInput, BOOST_FULL};
use arena_sim::motion::{advance_player, update_boost};
use arena_sim::sim::GameSim;
use arena_sim::trailer::rebuild_trailer;

fn config(initial_length: usize) -> GameConfig {
    GameConfig {
        world_size: 128_000,
        player_speed: 12_000,
        turn_speed: 143_239,
        initial_length,
        item_spawn_every_ticks: 20,
    }
}

fn player(id: u128, x: i64, z: i64, yaw: i64, trailer: Vec<Vec3>) -> PlayerState {
    PlayerState {
        id,
        position: Vec3 { x, y: 500, z },
        rotation_y: yaw,
        trailer,
        alive: true,
        boost_meter: BOOST_FULL,
    }
}

fn at(x: i64, z: i64) -> Vec3 {
    Vec3 { x, y: 500, z }
}

#[test]
fn fixed_point_trig_values() {
    assert_eq!(sin_approx(0), 0);
    assert_eq!(cos_approx(0), TRIG_ONE);
    assert_eq!(sin_approx(90_000), TRIG_ONE);
    assert_eq!(cos_approx(90_000), 0);
    assert_eq!(sin_approx(30_000), 500_000);
    assert_eq!(sin_approx(270_000), -TRIG_ONE);
}

#[test]
fn integer_square_root() {
    assert_eq!(isqrt(0), 0);
    assert_eq!(isqrt(1_000_005), 1000);
    assert_eq!(isqrt(999_999), 999);
}

#[test]
fn boost_drains_in_two_seconds_and_refills_in_five() {
    let mut meter = BOOST_FULL;
    let mut ticks = 0;
    while meter > 0 {
        let (m, active) = update_boost(meter, true);
        assert!(active);
        assert!(m >= 0 && m <= BOOST_FULL);
        meter = m;
        ticks += 1;
    }
    assert_eq!(ticks, 60);
    let (m, active) = update_boost(0, true);
    assert!(!active);
    assert_eq!(m, 2);
    let mut meter = 0;
    let mut ticks = 0;
    while meter < BOOST_FULL {
        meter = update_boost(meter, false).0;
        ticks += 1;
    }
    assert_eq!(ticks, 150);
    assert_eq!(update_boost(BOOST_FULL, false).0, BOOST_FULL);
}

#[test]
fn spawn_trailer_lies_straight_behind() {
    let t = rebuild_trailer(at(0, 0), 0, &Vec::new(), 3);
    assert_eq!(t, vec![at(0, 0), at(0, -2400), at(0, -4600)]);
}

#[test]
fn trailer_follows_toward_hitch() {
    // The cart hangs 1.5 from the hitch point, on the line toward its previous position.
    let t = rebuild_trailer(at(0, 400), 0, &vec![at(0, 0), at(3000, -500)], 2);
    assert_eq!(t, vec![at(0, 400), at(1500, -500)]);
}

#[test]
fn wall_crossing_kills_without_clamping() {
    let cfg = config(3);
    let mut p = player(1, 127_400, 0, 90_000, vec![at(127_400, 0)]);
    advance_player(&mut p, TurnInput::Straight, false, &cfg);
    assert!(!p.alive);
    assert_eq!(p.position.x, 127_800);
    let mut q = player(2, 127_000, 0, 90_000, vec![at(127_000, 0)]);
    advance_player(&mut q, TurnInput::Straight, false, &cfg);
    assert!(q.alive);
    assert_eq!(q.position.x, 127_400);
}

#[test]
fn turning_and_boosted_motion() {
    let cfg = config(3);
    let mut p = player(1, 0, 0, 0, vec![at(0, 0)]);
    advance_player(&mut p, TurnInput::Left, true, &cfg);
    assert_eq!(p.rotation_y, 4774);
    assert_eq!(p.boost_meter, BOOST_FULL - 5);
    let mut q = player(2, 0, 0, 0, vec![at(0, 0)]);
    advance_player(&mut q, TurnInput::Right, false, &cfg);
    assert_eq!(q.rotation_y, 360_000 - 4774);
    let mut r = player(3, 0, 0, 0, vec![at(0, 0)]);
    advance_player(&mut r, TurnInput::Straight, true, &cfg);
    assert_eq!(r.position, at(0, 800));
}

#[test]
fn head_on_collision_kills_both() {
    let mut sim = GameSim::new(config(1));
    sim.state.players.push(player(1, 0, 0, 90_000, vec![at(0, 0)]));
    sim.state.players.push(player(2, 1600, 0, 270_000, vec![at(1600, 0)]));
    sim.advance();
    assert!(!sim.state.players[0].alive);
    assert!(!sim.state.players[1].alive);
}

#[test]
fn nose_into_rear_cart_kills_only_the_rammer() {
    let mut sim = GameSim::new(config(2));
    sim.state.players.push(player(1, -1000, -2000, 90_000, vec![at(-1000, -2000), at(-3400, -2000)]));
    sim.state.players.push(player(2, 0, 0, 0, vec![at(0, 0), at(0, -2000)]));
    sim.advance();
    assert_eq!(sim.state.players[1].trailer, vec![at(0, 400), at(0, -2000)]);
    assert!(!sim.state.players[0].alive);
    assert!(sim.state.players[1].alive);
}

#[test]
fn pickup_grows_trailer_and_removes_item() {
    let mut sim = GameSim::new(config(1));
    sim.state.players.push(player(1, 0, 0, 0, vec![at(0, 0)]));
    sim.state.items.push(arena_sim::model::Item { pos: Vec3 { x: 0, y: 300, z: 900 }, id: 7 });
    sim.state.items.push(arena_sim::model::Item { pos: Vec3 { x: 50_000, y: 300, z: 0 }, id: 8 });
    sim.advance();
    assert_eq!(sim.state.players[0].trailer.len(), 2);
    assert_eq!(sim.state.items.len(), 1);
    assert_eq!(sim.state.items[0].id, 8);
    sim.advance();
    assert_eq!(sim.state.players[0].trailer.len(), 1);
}

#[test]
fn trailer_length_moves_one_cart_per_tick() {
    let mut sim = GameSim::new(config(3));
    sim.state.players.push(player(1, 0, 0, 0, vec![at(0, 0)]));
    sim.advance();
    assert_eq!(sim.state.players[0].trailer.len(), 2);
    sim.advance();
    assert_eq!(sim.state.players[0].trailer.len(), 3);
    sim.advance();
    assert_eq!(sim.state.players[0].trailer.len(), 3);
    let mut long = GameSim::new(config(3));
    let carts: Vec<Vec3> = (0..6).map(|k| at(0, -2000 * k)).collect();
    long.state.players.push(player(1, 0, 0, 0, carts));
    long.advance();
    assert_eq!(long.state.players[0].trailer.len(), 5);
}

#[test]
fn latest_command_wins_and_commands_are_consumed() {
    let mut sim = GameSim::new(config(1));
    sim.state.players.push(player(1, 0, 0, 0, vec![at(0, 0)]));
    sim.submit_input(1, TurnInput::Right);
    sim.submit_input(1, TurnInput::Left);
    sim.submit_boost(1, true);
    sim.submit_boost(1, false);
    sim.advance();
    assert_eq!(sim.state.players[0].rotation_y, 4774);
    assert_eq!(sim.state.players[0].boost_meter, BOOST_FULL);
    sim.advance();
    assert_eq!(sim.state.players[0].rotation_y, 4774);
}

#[test]
fn unknown_ids_are_ignored() {
    let mut sim = GameSim::new(config(3));
    let id = sim.add_player();
    sim.remove_player(&id.wrapping_add(1));
    sim.respawn_player(&id.wrapping_add(1));
    assert_eq!(sim.state.players.len(), 1);
    assert_eq!(sim.state.players[0].trailer.len(), 3);
    sim.remove_player(&id);
    assert!(sim.state.players.is_empty());
}

#[test]
fn respawn_resets_to_one_entry() {
    let mut sim = GameSim::new(config(3));
    let id = sim.add_player();
    sim.state.players[0].boost_meter = 10;
    sim.respawn_player(&id);
    let p = &sim.state.players[0];
    assert!(p.alive);
    assert_eq!(p.boost_meter, BOOST_FULL);
    assert_eq!(p.trailer, vec![p.position]);
    assert!(p.position.x >= -113_000 && p.position.x < 113_000);
}

#[test]
fn new_players_get_distinct_random_ids() {
    let mut sim = GameSim::new(config(3));
    let a = sim.add_player();
    let b = sim.add_player();
    assert_ne!(a, b);
    assert_eq!((a >> 76) & 0xF, 4);
}

#[test]
fn items_spawn_on_schedule() {
    let mut sim = GameSim::new(config(3));
    for _ in 0..19 {
        sim.step();
    }
    assert_eq!(sim.state.items.len(), 0);
    sim.step();
    assert_eq!(sim.state.tick, 20);
    assert_eq!(sim.state.items.len(), 1);
    let it = sim.state.items[0];
    assert!(it.pos.x >= -128_000 && it.pos.x < 128_000);
    assert!(it.pos.z >= -128_000 && it.pos.z < 128_000);
    assert_eq!(it.pos.y, 300);
}

#[test]
fn end_to_end_straight_run_until_the_wall() {
    let mut sim = GameSim::new(config(3));
    let id = sim.add_player();
    {
        let p = &sim.state.players[0];
        assert_eq!(p.trailer.len(), 3);
        assert_eq!(p.boost_meter, BOOST_FULL);
        assert!(p.alive);
        assert!(p.position.x >= -113_000 && p.position.x < 113_000);
        assert!(p.position.z >= -113_000 && p.position.z < 113_000);
    }
    let start = sim.state.players[0].position;
    let mut last_dist: i128 = 0;
    let mut died_at = None;
    for t in 0..900 {
        sim.submit_input(id, TurnInput::Straight);
        sim.submit_boost(id, false);
        // Keep items away so the run is not disturbed.
        sim.state.items.clear();
        sim.advance();
        let p = &sim.state.players[0];
        if !p.alive {
            died_at = Some(t);
            sim.respawn_player(&id);
            assert!(sim.state.players[0].alive);
            break;
        }
        let dx = (p.position.x - start.x) as i128;
        let dz = (p.position.z - start.z) as i128;
        let d = dx * dx + dz * dz;
        assert!(d > last_dist);
        last_dist = d;
    }
    assert!(died_at.is_some());
    for _ in 0..100 {
        sim.step();
        assert!(sim.state.players[0].alive);
    }
}

fn scripted_sim() -> GameSim {
    let mut sim = GameSim::new(config(3));
    sim.state.players.push(player(1, -20_000, 0, 0, vec![at(-20_000, 0)]));
    sim.state.players.push(player(2, 20_000, 0, 180_000, vec![at(20_000, 0)]));
    sim.state.items.push(arena_sim::model::Item { pos: Vec3 { x: -20_000, y: 300, z: 4_000 }, id: 5 });
    sim
}

fn script(t: u32) -> (TurnInput, bool) {
    match t % 7 {
        0 => (TurnInput::Left, true),
        1 | 2 => (TurnInput::Left, false),
        3 => (TurnInput::Right, true),
        4 => (TurnInput::Straight, true),
        _ => (TurnInput::Right, false),
    }
}

#[test]
fn same_world_and_commands_give_same_ticks() {
    let mut a = scripted_sim();
    let mut b = scripted_sim();
    for t in 0..200 {
        let (turn, boost) = script(t);
        for sim in [&mut a, &mut b] {
            sim.submit_input(1, turn);
            sim.submit_boost(1, boost);
            sim.submit_input(2, TurnInput::Right);
            sim.advance();
        }
        assert_eq!(a.state.tick, b.state.tick);
        assert_eq!(a.state.items, b.state.items);
        for (p, q) in a.state.players.iter().zip(b.state.players.iter()) {
            assert_eq!(p.position, q.position);
            assert_eq!(p.rotation_y, q.rotation_y);
            assert_eq!(p.trailer, q.trailer);
            assert_eq!(p.alive, q.alive);
            assert_eq!(p.boost_meter, q.boost_meter);
        }
    }
}

#[test]
fn meter_and_trailer_stay_within_bounds_over_many_ticks() {
    let mut sim = scripted_sim();
    let mut prev: Vec<usize> = sim.state.players.iter().map(|p| p.trailer.len()).collect();
    for t in 0..600 {
        let (turn, boost) = script(t);
        sim.submit_input(1, turn);
        sim.submit_boost(1, boost);
        sim.submit_boost(2, !boost);
        sim.advance();
        for (k, p) in sim.state.players.iter().enumerate() {
            assert!(p.boost_meter >= 0 && p.boost_meter <= BOOST_FULL);
            let len = p.trailer.len();
            assert!(len + 1 >= prev[k] && len <= prev[k] + 1);
            if p.alive {
                assert_eq!(p.trailer[0], p.position);
            }
            prev[k] = len;
        }
        let dead: Vec<u128> = sim.state.players.iter().filter(|p| !p.alive).map(|p| p.id).collect();
        for id in dead {
            sim.respawn_player(&id);
            prev = sim.state.players.iter().map(|p| p.trailer.len()).collect();
        }
    }
}

#[test]
fn spawn_points_are_drawn_at_random() {
    let mut sim = GameSim::new(config(3));
    for _ in 0..20 {
        sim.add_player();
    }
    let first = sim.state.players[0].position;
    assert!(sim.state.players.iter().any(|p| p.position != first));
    for p in sim.state.players.iter() {
        assert!(p.rotation_y >= 0 && p.rotation_y < 360_000);
        assert!(p.position.z >= -113_000 && p.position.z < 113_000);
    }
}

#[test]
fn small_arena_spawns_within_five_units() {
    let mut cfg = config(1);
    cfg.world_size = 10_000;
    let mut sim = GameSim::new(cfg);
    sim.add_player();
    let p = &sim.state.players[0];
    assert!(p.position.x >= -5_000 && p.position.x < 5_000);
    assert_eq!(p.trailer.len(), 1);
}

#[test]
fn filler_count() {
    assert_eq!(arena_sim::sim::fillers_to_add(0), 3);
    assert_eq!(arena_sim::sim::fillers_to_add(2), 1);
    assert_eq!(arena_sim::sim::fillers_to_add(7), 0);
}

#[test]
fn default_config_values() {
    let c = GameConfig::default();
    assert_eq!(c.world_size, 128_000);
    assert_eq!(c.player_speed, 12_000);
    assert_eq!(c.turn_speed, 143_239);
    assert_eq!(c.initial_length, 3);
    assert_eq!(c.item_spawn_every_ticks, 20);
}
