use arena_sim::geometry::Vec3;
use arena_sim::model::{PlayerState, TurnInput, WorldState, BOOST_FULL};
use arena_sim::session::{ClientSession, ConnectionPhase, LoadingState, SessionEvent};
use arena_sim::sync::{
    blend_coord, blend_yaw, handle_client_message, input_message, ClientSim, ClientToServer, ServerToClient,
    CORRECTION_PER_TICK_PPM, PPM,
};
use arena_sim::model::GameConfig;
use arena_sim::sim::GameSim;

fn at(x: i64, z: i64) -> Vec3 {
    Vec3 { x, y: 500, z }
}

fn server_player(id: u128, x: i64, z: i64, yaw: i64, alive: bool) -> PlayerState {
    PlayerState { id, position: at(x, z), rotation_y: yaw, trailer: vec![at(x, z), at(x, z - 2400)], alive, boost_meter: 120 }
}

fn world(tick: u64, players: Vec<PlayerState>) -> WorldState {
    WorldState { world_size: 128_000, players, items: Vec::new(), tick }
}

#[test]
fn welcome_with_bad_size_is_refused() {
    assert!(ClientSim::from_welcome(1, 0).is_none());
    let c = ClientSim::from_welcome(1, 64_000).unwrap();
    assert_eq!(c.sim.cfg.world_size, 64_000);
    assert_eq!(c.sim.state.players.len(), 1);
    assert_eq!(c.sim.state.players[0].position, at(0, 0));
}

#[test]
fn stale_snapshot_changes_nothing() {
    let mut c = ClientSim::from_welcome(1, 128_000).unwrap();
    c.apply_snapshot(world(5, vec![server_player(1, 1000, 0, 0, true), server_player(2, 50, 60, 0, true)]), CORRECTION_PER_TICK_PPM);
    assert_eq!(c.last_server_tick, 5);
    let before_pos = c.sim.state.players[0].position;
    let count = c.sim.state.players.len();
    c.apply_snapshot(world(5, vec![server_player(9, 0, 0, 0, true)]), CORRECTION_PER_TICK_PPM);
    c.apply_snapshot(world(3, vec![]), CORRECTION_PER_TICK_PPM);
    assert_eq!(c.last_server_tick, 5);
    assert_eq!(c.sim.state.players.len(), count);
    assert_eq!(c.sim.state.players[0].position, before_pos);
}

#[test]
fn snapshot_blends_local_and_overwrites_others() {
    let mut c = ClientSim::from_welcome(1, 128_000).unwrap();
    c.apply_snapshot(world(1, vec![server_player(1, 1000, -1000, 0, true), server_player(2, 50, 60, 0, true)]), CORRECTION_PER_TICK_PPM);
    let me = &c.sim.state.players[0];
    assert_eq!(me.position, at(394, -394));
    assert_eq!(me.boost_meter, 120);
    assert_eq!(me.trailer, vec![at(1000, -1000), at(1000, -3400)]);
    assert!(!c.just_respawned);
    assert_eq!(c.sim.state.players[1].position, at(50, 60));
}

#[test]
fn respawn_in_snapshot_is_taken_outright() {
    let mut c = ClientSim::from_welcome(1, 128_000).unwrap();
    c.sim.state.players[0].alive = false;
    c.apply_snapshot(world(2, vec![server_player(1, 7000, 8000, 1234, true)]), CORRECTION_PER_TICK_PPM);
    assert!(c.just_respawned);
    assert_eq!(c.sim.state.players[0].position, at(7000, 8000));
    assert_eq!(c.sim.state.players[0].rotation_y, 1234);
}

#[test]
fn corrections_converge_within_a_third_of_a_second() {
    let mut x: i64 = 0;
    for _ in 0..10 {
        x = blend_coord(x, 100_000, CORRECTION_PER_TICK_PPM);
    }
    assert!((100_000 - x) * 100 < 100_000);
    assert_eq!(blend_coord(0, 1000, CORRECTION_PER_TICK_PPM), 394);
    assert_eq!(blend_coord(1000, 0, CORRECTION_PER_TICK_PPM), 606);
    assert_eq!(blend_coord(5, 9, PPM), 9);
}

#[test]
fn yaw_blends_across_the_short_way() {
    // From 350 degrees toward 10 degrees the short way passes through 0.
    let r = blend_yaw(350_000, 10_000, 500_000);
    assert_eq!(r, 0);
    let s = blend_yaw(10_000, 350_000, 500_000);
    assert_eq!(s, 0);
}

#[test]
fn prediction_moves_only_the_local_player() {
    let mut c = ClientSim::from_welcome(1, 128_000).unwrap();
    c.apply_snapshot(world(1, vec![server_player(2, 50, 60, 0, true), server_player(1, 0, 0, 0, true)]), PPM);
    c.predict(TurnInput::Straight, false);
    assert_eq!(c.sim.state.players[1].position, at(0, 400));
    assert_eq!(c.sim.state.players[0].position, at(50, 60));
    assert_eq!(c.sim.state.players[1].boost_meter, 122);
}

#[test]
fn loading_gate_needs_all_four_conditions() {
    let mut l = LoadingState::new();
    assert!(!l.is_ready(10_000));
    l.on_state(1000);
    l.on_state(1100);
    l.on_state(1200);
    assert!(!l.is_ready(5000));
    l.on_welcome();
    assert!(!l.is_ready(2499));
    assert!(l.is_ready(2500));
    let mut m = LoadingState::default();
    m.on_welcome();
    m.on_state(0);
    m.on_state(0);
    assert!(!m.is_ready(100_000));
    assert_eq!(m.state_count, 2);
}

#[test]
fn session_phases() {
    let mut s = ClientSession::new();
    s.on_event(SessionEvent::Welcome, 0);
    assert_eq!(s.phase, ConnectionPhase::Disconnected);
    s.on_event(SessionEvent::Dial, 0);
    assert_eq!(s.phase, ConnectionPhase::Connecting);
    s.on_event(SessionEvent::Opened, 0);
    assert_eq!(s.phase, ConnectionPhase::AwaitingWelcome);
    s.on_event(SessionEvent::Welcome, 0);
    assert_eq!(s.phase, ConnectionPhase::Syncing);
    s.on_event(SessionEvent::Snapshot, 100);
    s.on_event(SessionEvent::Snapshot, 200);
    s.on_event(SessionEvent::Snapshot, 300);
    assert_eq!(s.phase, ConnectionPhase::Syncing);
    s.on_event(SessionEvent::Clock, 1600);
    assert_eq!(s.phase, ConnectionPhase::Ready);
    s.on_event(SessionEvent::Failed, 1700);
    assert_eq!(s.phase, ConnectionPhase::Disconnected);
    assert!(!s.loading.welcome_received);
}

#[test]
fn client_messages() {
    let m = ClientToServer::Input { turn: TurnInput::Left, boost: true };
    assert_eq!(m, ClientToServer::Input { turn: TurnInput::Left, boost: true });
    assert_ne!(m, ClientToServer::Ping(3));
    let h = ClientToServer::Hello { name: "ann".to_string() };
    assert!(matches!(h, ClientToServer::Hello { .. }));
    assert_eq!(BOOST_FULL, 300);
}

#[test]
fn keys_to_input_message() {
    assert_eq!(input_message(true, true, false), ClientToServer::Input { turn: TurnInput::Left, boost: false });
    assert_eq!(input_message(false, true, true), ClientToServer::Input { turn: TurnInput::Right, boost: true });
    assert_eq!(input_message(false, false, false), ClientToServer::Input { turn: TurnInput::Straight, boost: false });
}

#[test]
fn server_handles_client_messages() {
    let mut sim = GameSim::new(GameConfig::default());
    let id = sim.add_player();
    let yaw = sim.state.players[0].rotation_y;
    assert!(matches!(handle_client_message(&mut sim, id, ClientToServer::Ping(42)), Some(ServerToClient::Pong(42))));
    assert!(handle_client_message(&mut sim, id, ClientToServer::Hello { name: "x".to_string() }).is_none());
    assert!(handle_client_message(&mut sim, id, ClientToServer::Input { turn: TurnInput::Left, boost: true }).is_none());
    sim.advance();
    let p = &sim.state.players[0];
    if p.alive {
        assert_eq!(p.rotation_y, (yaw + 4774) % 360_000);
        assert_eq!(p.boost_meter, BOOST_FULL - 5);
    }
}
