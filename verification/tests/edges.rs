use oxidar_snake::game::board::Position;
use oxidar_snake::game::engine::{CrownEvent, SnakeState, TickResult};
use oxidar_snake::game::snake::Direction;
use oxidar_snake::geo::{country_of, is_private_ip, IpAddress};
use oxidar_snake::net::protocol::{ServerMessage, SnakeData};
use oxidar_snake::probe::{find_snake, observe, step_label, Observation};

#[test]
fn private_and_loopback_addresses_are_skipped() {
    assert!(is_private_ip(Some(IpAddress::V4([127, 0, 0, 1]))));
    assert!(is_private_ip(Some(IpAddress::V4([10, 0, 0, 1]))));
    assert!(is_private_ip(Some(IpAddress::V4([192, 168, 1, 1]))));
    assert!(is_private_ip(Some(IpAddress::V4([172, 16, 0, 1]))));
    assert!(is_private_ip(Some(IpAddress::V4([172, 31, 255, 255]))));
    assert!(is_private_ip(Some(IpAddress::V4([169, 254, 3, 4]))));
    assert!(is_private_ip(Some(IpAddress::V6([0, 0, 0, 0, 0, 0, 0, 1]))));
    assert!(!is_private_ip(Some(IpAddress::V4([172, 32, 0, 1]))));
    assert!(!is_private_ip(Some(IpAddress::V4([8, 8, 8, 8]))));
    assert!(!is_private_ip(Some(IpAddress::V6([0x2001, 0xdb8, 0, 0, 0, 0, 0, 1]))));
    assert!(!is_private_ip(None));
}

#[test]
fn empty_country_codes_are_dropped() {
    assert_eq!(country_of(Some("AR".into())), Some("AR".to_string()));
    assert_eq!(country_of(Some(String::new())), None);
    assert_eq!(country_of(None), None);
}

#[test]
fn tick_results_become_state_messages() {
    let result = TickResult {
        tick: 42,
        food: Position { x: 10, y: 5 },
        snakes: vec![SnakeState {
            name: "alice".into(),
            body: vec![Position { x: 1, y: 2 }, Position { x: 1, y: 3 }],
            dir: Direction::Left,
            crowns: 1,
        }],
        crowns: vec![],
    };
    match ServerMessage::from_tick(&result) {
        ServerMessage::State { tick, food, snakes } => {
            assert_eq!(tick, 42);
            assert_eq!(food, [10, 5]);
            assert_eq!(snakes.len(), 1);
            assert_eq!(snakes[0].name, "alice");
            assert_eq!(snakes[0].body, vec![[1, 2], [1, 3]]);
            assert_eq!(snakes[0].dir, 3);
            assert_eq!(snakes[0].crowns, 1);
        }
        _ => panic!("expected State"),
    }
    match ServerMessage::from_crown(&CrownEvent { name: "bob".into(), crowns: 2 }) {
        ServerMessage::Crown { name, crowns } => {
            assert_eq!(name, "bob");
            assert_eq!(crowns, 2);
        }
        _ => panic!("expected Crown"),
    }
}

#[test]
fn probe_labels_are_padded() {
    assert_eq!(step_label(1, "Connecting..."), format!("[1] {:<45}", "Connecting..."));
    assert_eq!(step_label(120, "x"), format!("[120] {:<45}", "x"));
    let long = "a".repeat(60);
    assert_eq!(step_label(7, &long), format!("[7] {long}"));
    assert_eq!(step_label(1, "Connecting...").chars().count(), 4 + 45);
}

#[test]
fn probe_finds_its_snake() {
    let snakes = vec![
        SnakeData { name: "a".into(), body: vec![], dir: 0, crowns: 0 },
        SnakeData { name: "probe".into(), body: vec![[1, 1]], dir: 1, crowns: 0 },
    ];
    assert_eq!(find_snake(&snakes, "probe"), Some(1));
    assert_eq!(find_snake(&snakes, "nobody"), None);
}

#[test]
fn probe_observes_each_message() {
    let snakes = vec![
        SnakeData { name: "a".into(), body: vec![[0, 0]], dir: 0, crowns: 0 },
        SnakeData { name: "probe".into(), body: vec![[1, 1], [0, 1], [7, 1]], dir: 1, crowns: 0 },
    ];
    let state = ServerMessage::State { tick: 12, food: [3, 3], snakes };
    match observe(&state, "probe") {
        Observation::Record { tick, players, length } => {
            assert_eq!((tick, players, length), (12, 2, 3));
        }
        other => panic!("expected Record, got {other:?}"),
    }
    match observe(&state, "nobody") {
        Observation::Vanished { tick } => assert_eq!(tick, 12),
        other => panic!("expected Vanished, got {other:?}"),
    }
    let crown = ServerMessage::Crown { name: "probe".into(), crowns: 1 };
    assert!(matches!(observe(&crown, "probe"), Observation::Skip));
}
