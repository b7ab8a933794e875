use oxidar_snake::game::engine::GameEngine;
use oxidar_snake::leaderboard::compute;
use rand::rngs::StdRng;
use rand::SeedableRng;

fn test_engine() -> GameEngine {
    GameEngine::new(8, 8, 4, 16, 32, StdRng::seed_from_u64(42))
}

fn set_crowns(engine: &mut GameEngine, name: &str, crowns: u32) {
    engine.active_players_mut().iter_mut().find(|s| s.name == name).unwrap().crowns = crowns;
}

#[test]
fn sorted_by_crowns_descending() {
    let mut engine = test_engine();
    engine.add_player("alice".into()).unwrap();
    engine.add_player("bob".into()).unwrap();
    engine.add_player("charlie".into()).unwrap();

    set_crowns(&mut engine, "alice", 5);
    set_crowns(&mut engine, "bob", 3);
    set_crowns(&mut engine, "charlie", 7);

    let lb = compute(&engine);
    assert_eq!(lb[0].name, "charlie");
    assert_eq!(lb[0].crowns, 7);
    assert_eq!(lb[1].name, "alice");
    assert_eq!(lb[2].name, "bob");
}

#[test]
fn tie_in_crowns_uses_length_tiebreaker() {
    let mut engine = test_engine();
    engine.add_player("alice".into()).unwrap();
    engine.add_player("bob".into()).unwrap();

    set_crowns(&mut engine, "alice", 3);
    set_crowns(&mut engine, "bob", 3);
    engine.active_players_mut().iter_mut().find(|s| s.name == "bob").unwrap().growing = 4;
    for _ in 0..4 {
        engine.tick();
    }

    let lb = compute(&engine);
    assert_eq!(lb[0].name, "bob");
    assert_eq!(lb[1].name, "alice");
}

#[test]
fn disconnected_shows_alive_false_and_length_zero() {
    let mut engine = test_engine();
    engine.add_player("alice".into()).unwrap();
    engine.add_player("bob".into()).unwrap();
    engine.remove_player("bob");

    let lb = compute(&engine);
    let alice = lb.iter().find(|e| e.name == "alice").unwrap();
    let bob = lb.iter().find(|e| e.name == "bob").unwrap();

    assert!(alice.alive);
    assert!(alice.length > 0);
    assert!(!bob.alive);
    assert_eq!(bob.length, 0);
}

#[test]
fn every_player_appears_once_and_ranks_never_rise() {
    let mut engine = test_engine();
    for (name, crowns) in [("a", 2), ("b", 9), ("c", 2), ("d", 0), ("e", 9)] {
        engine.add_player(name.into()).unwrap();
        set_crowns(&mut engine, name, crowns);
    }
    engine.remove_player("e");
    let lb = compute(&engine);
    assert_eq!(lb.len(), 5);
    let mut names: Vec<&str> = lb.iter().map(|e| e.name.as_str()).collect();
    names.sort();
    assert_eq!(names, vec!["a", "b", "c", "d", "e"]);
    for pair in lb.windows(2) {
        let (x, y) = (&pair[0], &pair[1]);
        assert!(x.crowns > y.crowns || (x.crowns == y.crowns && x.length >= y.length));
    }
    assert_eq!(lb[0].name, "b");
    assert_eq!(lb[1].name, "e");
    assert_eq!(lb[4].name, "d");
}

#[test]
fn empty_game_has_empty_leaderboard() {
    let engine = test_engine();
    assert!(compute(&engine).is_empty());
}
