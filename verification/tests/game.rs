use oxidar_snake::game::board::{Board, Position};
use oxidar_snake::game::engine::{EngineError, GameEngine};
use oxidar_snake::game::snake::{Direction, Snake};
use rand::rngs::StdRng;
use rand::SeedableRng;

fn board(width: u16, height: u16) -> Board {
    let mut rng = StdRng::seed_from_u64(0);
    Board::new(width, height, &mut rng)
}

#[test]
fn wrap_x_overflow() {
    let b = board(64, 32);
    assert_eq!(b.wrap(64, 0), Position { x: 0, y: 0 });
}

#[test]
fn wrap_x_underflow() {
    let b = board(64, 32);
    assert_eq!(b.wrap(-1, 0), Position { x: 63, y: 0 });
}

#[test]
fn wrap_y_underflow() {
    let b = board(64, 32);
    assert_eq!(b.wrap(0, -1), Position { x: 0, y: 31 });
}

#[test]
fn wrap_y_overflow() {
    let b = board(64, 32);
    assert_eq!(b.wrap(0, 32), Position { x: 0, y: 0 });
}

#[test]
fn food_within_bounds() {
    let mut rng = StdRng::seed_from_u64(42);
    let b = Board::new(64, 32, &mut rng);
    let f = b.food();
    assert!(f.x < 64);
    assert!(f.y < 32);
}

#[test]
fn spawn_food_within_bounds() {
    let mut rng = StdRng::seed_from_u64(42);
    let mut b = Board::new(8, 8, &mut rng);
    for _ in 0..100 {
        b.spawn_food(&mut rng);
        let f = b.food();
        assert!(f.x < 8);
        assert!(f.y < 8);
    }
}

#[test]
fn wrap_far_outside_the_board() {
    let b = board(64, 32);
    assert_eq!(b.wrap(-129, 70), Position { x: 63, y: 6 });
    assert_eq!(b.wrap(64 * 3 + 5, -32 * 2), Position { x: 5, y: 0 });
}

fn test_board() -> Board {
    let mut rng = StdRng::seed_from_u64(0);
    Board::new(8, 8, &mut rng)
}

#[test]
fn advance_moves_head_keeps_length() {
    let board = test_board();
    let mut snake = Snake::new("test".into(), Position { x: 4, y: 4 }, Direction::Right, 4, &board);
    let original_len = snake.len();
    snake.advance(&board);
    assert_eq!(snake.head(), Position { x: 5, y: 4 });
    assert_eq!(snake.len(), original_len);
}

#[test]
fn grow_then_advance_increases_length() {
    let board = test_board();
    let mut snake = Snake::new("test".into(), Position { x: 4, y: 4 }, Direction::Right, 4, &board);
    snake.grow();
    snake.advance(&board);
    assert_eq!(snake.len(), 5);
}

#[test]
fn queue_reversal_ignored() {
    let board = test_board();
    let mut snake = Snake::new("test".into(), Position { x: 4, y: 4 }, Direction::Right, 4, &board);
    snake.queue_turn(Direction::Left);
    snake.apply_turn();
    assert_eq!(snake.dir, Direction::Right);
}

#[test]
fn queue_valid_turn_apply_advance() {
    let board = test_board();
    let mut snake = Snake::new("test".into(), Position { x: 4, y: 4 }, Direction::Right, 4, &board);
    snake.queue_turn(Direction::Up);
    snake.apply_turn();
    snake.advance(&board);
    assert_eq!(snake.dir, Direction::Up);
    assert_eq!(snake.head(), Position { x: 4, y: 3 });
}

#[test]
fn movement_wraps_at_edges() {
    let board = test_board();
    let mut snake = Snake::new("test".into(), Position { x: 0, y: 0 }, Direction::Left, 4, &board);
    snake.advance(&board);
    assert_eq!(snake.head(), Position { x: 7, y: 0 });
}

#[test]
fn fresh_snake_trails_behind_its_head_and_wraps() {
    let board = test_board();
    let snake = Snake::new("s".into(), Position { x: 1, y: 6 }, Direction::Right, 4, &board);
    let cells: Vec<Position> = snake.body.iter().copied().collect();
    assert_eq!(
        cells,
        vec![
            Position { x: 1, y: 6 },
            Position { x: 0, y: 6 },
            Position { x: 7, y: 6 },
            Position { x: 6, y: 6 }
        ]
    );
    assert_eq!(snake.crowns, 0);
    assert_eq!(snake.growing, 0);
    assert!(snake.next_dir.is_none());
    let up = Snake::new("u".into(), Position { x: 3, y: 7 }, Direction::Up, 3, &board);
    let cells: Vec<Position> = up.body.iter().copied().collect();
    assert_eq!(cells, vec![Position { x: 3, y: 7 }, Position { x: 3, y: 0 }, Position { x: 3, y: 1 }]);
}

#[test]
fn zero_length_snake_still_has_a_head() {
    let board = test_board();
    let snake = Snake::new("z".into(), Position { x: 2, y: 2 }, Direction::Down, 0, &board);
    assert_eq!(snake.len(), 1);
    assert_eq!(snake.head(), Position { x: 2, y: 2 });
}

#[test]
fn reversing_is_never_queued_even_after_a_valid_turn() {
    let board = test_board();
    let mut snake = Snake::new("r".into(), Position { x: 4, y: 4 }, Direction::Right, 4, &board);
    snake.queue_turn(Direction::Down);
    snake.queue_turn(Direction::Left);
    assert_eq!(snake.next_dir, Some(Direction::Down));
    snake.apply_turn();
    assert_eq!(snake.dir, Direction::Down);
    assert_ne!(snake.dir, Direction::Left);
    assert!(snake.next_dir.is_none());
}

#[test]
fn directions_round_trip_on_the_wire() {
    for d in [Direction::Up, Direction::Right, Direction::Down, Direction::Left] {
        assert_eq!(Direction::from_u8(d.to_u8()), Some(d));
        assert_eq!(d.opposite().opposite(), d);
        let (dx, dy) = d.delta();
        let (ox, oy) = d.opposite().delta();
        assert_eq!((dx + ox, dy + oy), (0, 0));
    }
    assert_eq!(Direction::Up.to_u8(), 0);
    assert_eq!(Direction::Left.to_u8(), 3);
    assert_eq!(Direction::from_u8(4), None);
    assert_eq!(Direction::from_u8(255), None);
    assert_eq!(Direction::Up.delta(), (0, -1));
}

fn test_engine() -> GameEngine {
    GameEngine::new(8, 8, 4, 8, 2, StdRng::seed_from_u64(42))
}

fn head_of(engine: &GameEngine, name: &str) -> Position {
    engine.active_players().iter().find(|s| s.name == name).unwrap().head()
}

fn snake_mut<'a>(engine: &'a mut GameEngine, name: &str) -> &'a mut Snake {
    engine.active_players_mut().iter_mut().find(|s| s.name == name).unwrap()
}

fn is_active(engine: &GameEngine, name: &str) -> bool {
    engine.active_players().iter().any(|s| s.name == name)
}

fn is_disconnected(engine: &GameEngine, name: &str) -> bool {
    engine.disconnected_players().iter().any(|(s, _)| s.name == name)
}

#[test]
fn add_two_players_tick_both_move() {
    let mut engine = test_engine();
    engine.add_player("alice".into()).unwrap();
    engine.add_player("bob".into()).unwrap();

    let r1 = engine.tick();
    assert_eq!(r1.snakes.len(), 2);

    let r2 = engine.tick();
    for s in &r2.snakes {
        let prev = r1.snakes.iter().find(|p| p.name == s.name).unwrap();
        assert_ne!(s.body[0], prev.body[0], "snake {} should have moved", s.name);
    }
}

#[test]
fn snake_eats_food_grows_and_food_respawns() {
    let mut engine = GameEngine::new(8, 8, 4, 16, 4, StdRng::seed_from_u64(42));
    engine.add_player("alice".into()).unwrap();

    let food = engine.board().food();
    let snake = snake_mut(&mut engine, "alice");
    snake.body[0] = Position { x: (food.x as i32 - 1).rem_euclid(8) as u16, y: food.y };
    snake.dir = Direction::Right;

    let old_food = engine.board().food();
    let old_len = engine.active_players().iter().find(|s| s.name == "alice").unwrap().len();

    let result = engine.tick();

    assert!(result.food.x < 8 && result.food.y < 8);
    let _ = old_food;

    engine.tick();
    assert_eq!(engine.active_players().iter().find(|s| s.name == "alice").unwrap().len(), old_len + 1);
}

#[test]
fn snake_reaches_win_length_gets_crown_and_resets() {
    let mut engine = GameEngine::new(8, 8, 4, 6, 4, StdRng::seed_from_u64(42));
    engine.add_player("alice".into()).unwrap();

    let snake = snake_mut(&mut engine, "alice");
    snake.growing = 2;
    while snake.body.len() < 5 {
        snake.body.push_back(Position { x: 0, y: 0 });
    }
    snake.growing = 1;

    let result = engine.tick();
    assert_eq!(result.crowns.len(), 1);
    assert_eq!(result.crowns[0].name, "alice");
    assert_eq!(result.crowns[0].crowns, 1);
    let alice = engine.active_players().iter().find(|s| s.name == "alice").unwrap();
    assert_eq!(alice.len(), 4);
    assert_eq!(alice.crowns, 1);
}

#[test]
fn remove_player_reconnect_preserves_state() {
    let mut engine = test_engine();
    engine.add_player("alice".into()).unwrap();
    engine.tick();

    let head_before = head_of(&engine, "alice");
    let crowns_before = engine.active_players().iter().find(|s| s.name == "alice").unwrap().crowns;

    engine.remove_player("alice");
    assert!(!is_active(&engine, "alice"));
    assert!(is_disconnected(&engine, "alice"));

    engine.add_player("alice".into()).unwrap();
    assert!(is_active(&engine, "alice"));
    assert!(!is_disconnected(&engine, "alice"));
    assert_eq!(head_of(&engine, "alice"), head_before);
    assert_eq!(engine.active_players().iter().find(|s| s.name == "alice").unwrap().crowns, crowns_before);
}

#[test]
fn add_player_at_max_capacity_errors() {
    let mut engine = test_engine();
    engine.add_player("alice".into()).unwrap();
    engine.add_player("bob".into()).unwrap();
    let result = engine.add_player("charlie".into());
    assert!(result.is_err());
}

#[test]
fn purge_stale_removes_expired() {
    let mut engine = test_engine();
    engine.add_player("alice".into()).unwrap();
    engine.remove_player("alice");

    // Purge two minutes after alice left.
    let left_at = engine.disconnected_players()[0].1;
    engine.purge_stale_at(left_at + 120_000_000_000, 60);
    assert!(!is_disconnected(&engine, "alice"));
}

#[test]
fn purge_stale_keeps_recent_leavers() {
    let mut engine = test_engine();
    engine.add_player("alice".into()).unwrap();
    engine.remove_player("alice");
    engine.purge_stale(60);
    assert!(is_disconnected(&engine, "alice"));
}

#[test]
fn purge_aged_keeps_exactly_the_young_in_order() {
    let mut engine = GameEngine::new(8, 8, 4, 16, 8, StdRng::seed_from_u64(7));
    for name in ["a", "b", "c", "d"] {
        engine.add_player(name.into()).unwrap();
    }
    for name in ["a", "b", "c", "d"] {
        engine.remove_player(name);
    }
    engine.purge_aged(&vec![5, 60, 59, 61], 60);
    let left: Vec<&str> = engine.disconnected_players().iter().map(|(s, _)| s.name.as_str()).collect();
    assert_eq!(left, vec!["a", "c"]);
}

#[test]
fn duplicate_join_is_refused_without_change() {
    let mut engine = test_engine();
    engine.add_player("alice".into()).unwrap();
    assert_eq!(engine.add_player("alice".into()), Err(EngineError::UsernameTaken));
    assert_eq!(engine.active_players().len(), 1);
    assert_eq!(EngineError::UsernameTaken.message(), "username already connected");
    assert_eq!(EngineError::ServerFull.message(), "server full");
}

#[test]
fn full_game_refuses_a_returning_leaver() {
    let mut engine = test_engine();
    engine.add_player("alice".into()).unwrap();
    engine.add_player("bob".into()).unwrap();
    engine.remove_player("alice");
    engine.add_player("carol".into()).unwrap();
    assert_eq!(engine.add_player("dave".into()), Err(EngineError::ServerFull));
    assert_eq!(engine.add_player("alice".into()), Err(EngineError::ServerFull));
    assert_eq!(engine.active_players().len(), 2);
    assert!(is_disconnected(&engine, "alice"));
    engine.remove_player("bob");
    assert_eq!(engine.add_player("alice".into()), Ok(()));
    assert!(!is_disconnected(&engine, "alice"));
}

#[test]
fn leavers_are_stamped_and_purged_by_exact_age() {
    let mut engine = GameEngine::new(8, 8, 4, 16, 8, StdRng::seed_from_u64(5));
    for name in ["a", "b", "c"] {
        engine.add_player(name.into()).unwrap();
    }
    engine.remove_player_at("a", 0);
    engine.remove_player_at("b", 1_000_000_001);
    engine.remove_player_at("c", 5_000_000_000);
    engine.remove_player_at("nobody", 7);
    let stamps: Vec<(&str, u64)> =
        engine.disconnected_players().iter().map(|(s, t)| (s.name.as_str(), *t)).collect();
    assert_eq!(stamps, vec![("a", 0), ("b", 1_000_000_001), ("c", 5_000_000_000)]);
    // At 61 s: a is 61 s old, b is 59.999... s old (59 whole seconds), c is 56 s old.
    engine.purge_stale_at(61_000_000_000, 60);
    let left: Vec<&str> = engine.disconnected_players().iter().map(|(s, _)| s.name.as_str()).collect();
    assert_eq!(left, vec!["b", "c"]);
    // A stamp after the moment counts as age 0.
    engine.purge_stale_at(0, 1);
    assert_eq!(engine.disconnected_players().len(), 2);
    engine.purge_stale_at(61_000_000_000, 0);
    assert!(engine.disconnected_players().is_empty());
}

#[test]
fn new_player_starts_fresh_on_the_board() {
    let mut engine = test_engine();
    engine.add_player("alice".into()).unwrap();
    let s = &engine.active_players()[0];
    assert_eq!(s.len(), 4);
    assert_eq!(s.dir, Direction::Right);
    assert_eq!(s.crowns, 0);
    assert!(s.head().x < 8 && s.head().y < 8);
}

#[test]
fn queued_turn_takes_effect_on_the_next_tick() {
    let mut engine = test_engine();
    engine.add_player("alice".into()).unwrap();
    let head = head_of(&engine, "alice");
    engine.queue_turn("alice", Direction::Down);
    engine.queue_turn("nobody", Direction::Up);
    let r = engine.tick();
    assert_eq!(r.tick, 1);
    assert_eq!(r.snakes[0].dir, Direction::Down);
    assert_eq!(r.snakes[0].body[0], Position { x: head.x, y: (head.y + 1) % 8 });
}

#[test]
fn can_tick_reports_overflow_risk() {
    let mut engine = test_engine();
    engine.add_player("alice".into()).unwrap();
    assert!(engine.can_tick());
    snake_mut(&mut engine, "alice").crowns = u32::MAX;
    assert!(!engine.can_tick());
}
