use oxidar_snake::config::GameConfig;
use oxidar_snake::game::snake::Direction;
use oxidar_snake::net::chaos::ChaosInjector;
use oxidar_snake::net::protocol::ServerMessage;
use oxidar_snake::net::server::{
    health_response, route_health, session_username, switch_for, Command, Connection, GameLoop,
    HealthRoute, Inbound, Outgoing, Reaction,
};
use oxidar_snake::net::session::SessionManager;
use rand::rngs::StdRng;
use rand::SeedableRng;

fn error_text(r: &Reaction) -> Option<String> {
    match r {
        Reaction::Reply(ServerMessage::Error { msg }) => Some(msg.clone()),
        _ => None,
    }
}

#[test]
fn connection_refuses_what_the_protocol_forbids() {
    let mut mgr = SessionManager::new();
    let id = mgr.connect();
    let mut conn = Connection::new(id);
    assert_eq!(error_text(&conn.react(Inbound::Turn { dir: 1 })).as_deref(), Some("not a player"));
    assert_eq!(
        error_text(&conn.react(Inbound::Join { username: String::new() })).as_deref(),
        Some("empty username")
    );
    assert!(!conn.is_player);
    match conn.react(Inbound::Join { username: "alice".into() }) {
        Reaction::Forward(Command::Join { session, username }) => {
            assert_eq!(session, id);
            assert_eq!(username, "alice");
        }
        _ => panic!("expected a join command"),
    }
    assert!(conn.is_player);
    assert_eq!(
        error_text(&conn.react(Inbound::Join { username: "bob".into() })).as_deref(),
        Some("already joined")
    );
    assert!(matches!(conn.react(Inbound::Turn { dir: 2 }), Reaction::Forward(Command::Turn { dir: 2, .. })));
    assert_eq!(error_text(&conn.react(Inbound::Malformed)).as_deref(), Some("malformed message"));
    assert_eq!(error_text(&conn.react(Inbound::Text)).as_deref(), Some("expected binary frames"));
    assert!(matches!(conn.react(Inbound::Other), Reaction::Ignore));
    assert!(matches!(conn.react(Inbound::Close), Reaction::Stop));
    assert!(matches!(conn.farewell(), Command::Disconnect { session } if session == id));
}

fn config() -> GameConfig {
    GameConfig {
        board_width: 16,
        board_height: 16,
        max_players: 2,
        tick_ms: 50,
        snake_start_length: 4,
        snake_win_length: 16,
        disconnect_timeout_s: 5,
        leaderboard_interval_ticks: 5,
        chaos_interval_ticks: 10,
        palette: vec![],
    }
}

fn game_loop() -> GameLoop {
    GameLoop::new(&config(), StdRng::seed_from_u64(3), ChaosInjector::new(10))
}

fn reply_text(m: Option<ServerMessage>) -> Option<String> {
    match m {
        Some(ServerMessage::Error { msg }) => Some(msg),
        None => None,
        _ => panic!("unexpected reply"),
    }
}

#[test]
fn game_loop_joins_turns_and_disconnects() {
    let mut g = game_loop();
    let a = g.on_connect();
    let b = g.on_connect();
    let c = g.on_connect();
    assert_eq!(reply_text(g.on_command(Command::Join { session: a, username: "alice".into() })), None);
    assert_eq!(
        reply_text(g.on_command(Command::Join { session: b, username: "alice".into() })).as_deref(),
        Some("username already connected")
    );
    assert_eq!(reply_text(g.on_command(Command::Join { session: b, username: "bob".into() })), None);
    assert_eq!(
        reply_text(g.on_command(Command::Join { session: c, username: "carol".into() })).as_deref(),
        Some("server full")
    );
    assert_eq!(session_username(g.sessions(), a).as_deref(), Some("alice"));
    assert_eq!(reply_text(g.on_command(Command::Turn { session: a, dir: 2 })), None);
    assert_eq!(
        g.engine().active_players().iter().find(|s| s.name == "alice").unwrap().next_dir,
        Some(Direction::Down)
    );
    assert_eq!(reply_text(g.on_command(Command::Turn { session: a, dir: 9 })), None);
    assert_eq!(reply_text(g.on_command(Command::Disconnect { session: a })), None);
    assert!(g.engine().disconnected_players().iter().any(|(s, _)| s.name == "alice"));
    assert!(session_username(g.sessions(), a).is_none());
}

#[test]
fn game_loop_announces_state_and_leaderboard_on_schedule() {
    let mut g = game_loop();
    let a = g.on_connect();
    g.on_command(Command::Join { session: a, username: "alice".into() });
    for tick in 1..=10u64 {
        assert!(g.can_tick());
        let out = g.on_tick(false);
        let states = out
            .iter()
            .filter(|o| matches!(o, Outgoing::Broadcast(ServerMessage::State { .. })))
            .count();
        assert_eq!(states, 1);
        match &out[0] {
            Outgoing::Broadcast(ServerMessage::State { tick: t, snakes, .. }) => {
                assert_eq!(*t, tick);
                assert_eq!(snakes.len(), 1);
                assert_eq!(snakes[0].name, "alice");
            }
            _ => panic!("the state comes first when nobody wins"),
        }
        let boards = out
            .iter()
            .filter(|o| matches!(o, Outgoing::Broadcast(ServerMessage::Leaderboard { .. })))
            .count();
        assert_eq!(boards, if tick % 5 == 0 { 1 } else { 0 });
        assert!(!out.iter().any(|o| matches!(o, Outgoing::Chaos(_))));
    }
}

#[test]
fn health_port_routes_requests() {
    assert_eq!(route_health(b"GET /health HTTP/1.1\r\nHost: localhost\r\n\r\n"), HealthRoute::Health);
    assert_eq!(route_health(b"POST /chaos/on HTTP/1.1\r\n\r\n"), HealthRoute::ChaosOn);
    assert_eq!(route_health(b"POST /chaos/off HTTP/1.1\r\n\r\n"), HealthRoute::ChaosOff);
    assert_eq!(route_health(b"POST /chaos/onward HTTP/1.1\r\n\r\n"), HealthRoute::Health);
    assert_eq!(route_health(b""), HealthRoute::Health);
    assert_eq!(health_response(HealthRoute::Health), "HTTP/1.1 200 OK\r\nContent-Length: 2\r\n\r\nok");
    assert_eq!(health_response(HealthRoute::ChaosOn), "HTTP/1.1 200 OK\r\nContent-Length: 9\r\n\r\nchaos on\n");
    assert_eq!(switch_for(HealthRoute::ChaosOff), Some(false));
    assert_eq!(switch_for(HealthRoute::Health), None);
}

#[test]
fn chaos_follows_the_state_once_switched_on() {
    let chaos = ChaosInjector::new(10);
    let switch = chaos.enabled.clone();
    let mut g = GameLoop::new(&config(), StdRng::seed_from_u64(9), chaos);
    switch.store(true, std::sync::atomic::Ordering::Relaxed);
    for tick in 1..=20u64 {
        let out = g.on_tick(g.chaos_switch_on());
        let chaos_at = out.iter().position(|o| matches!(o, Outgoing::Chaos(_)));
        if tick % 10 == 0 {
            assert_eq!(chaos_at, Some(1));
            assert!(matches!(out[0], Outgoing::Broadcast(ServerMessage::State { .. })));
        } else {
            assert_eq!(chaos_at, None);
        }
    }
}

#[test]
fn game_loop_keeps_players_tied_to_connections() {
    let mut g = game_loop();
    let a = g.on_connect();
    let b = g.on_connect();
    let c = g.on_connect();
    assert_eq!(reply_text(g.on_command(Command::Join { session: a, username: "alice".into() })), None);
    assert_eq!(reply_text(g.on_command(Command::Join { session: b, username: "bob".into() })), None);
    assert_eq!(
        reply_text(g.on_command(Command::Join { session: c, username: "carol".into() })).as_deref(),
        Some("server full")
    );
    assert_eq!(session_username(g.sessions(), c).as_deref(), Some("carol"));
    assert_eq!(reply_text(g.on_command(Command::Disconnect { session: a })), None);
    let d = g.on_connect();
    assert_eq!(reply_text(g.on_command(Command::Join { session: d, username: "alice".into() })), None);
    let names: Vec<&str> = g.engine().active_players().iter().map(|s| s.name.as_str()).collect();
    assert_eq!(names, vec!["bob", "alice"]);
    for name in names {
        assert!([b, d].iter().any(|s| session_username(g.sessions(), *s).as_deref() == Some(name)));
    }
    let mut last = 0;
    for _ in 0..3 {
        for o in g.on_tick(false) {
            if let Outgoing::Broadcast(ServerMessage::State { tick, .. }) = o {
                last = tick;
            }
        }
    }
    assert_eq!(last, 3);
}

#[test]
fn chaos_frame_follows_the_reading_handed_in() {
    let mut g = game_loop();
    for tick in 1..=20u64 {
        let on = tick <= 10;
        let out = g.on_tick(on);
        let frames = out.iter().filter(|o| matches!(o, Outgoing::Chaos(_))).count();
        assert_eq!(frames, if on && tick % 10 == 0 { 1 } else { 0 });
    }
    assert!(!g.chaos_switch_on());
}
