use oxidar_snake::net::session::{Session, SessionError, SessionManager};

#[test]
fn connect_is_spectator_promote_is_player_disconnect_removes() {
    let mut mgr = SessionManager::new();
    let id = mgr.connect();

    assert!(matches!(mgr.get(id), Some(Session::Spectator)));

    mgr.promote(id, "alice".into()).unwrap();
    match mgr.get(id) {
        Some(Session::Player { username }) => assert_eq!(username, "alice"),
        _ => panic!("expected Player"),
    }

    let session = mgr.disconnect(id);
    assert!(session.is_some());
    assert!(mgr.get(id).is_none());
}

#[test]
fn promote_duplicate_username_errors() {
    let mut mgr = SessionManager::new();
    let id1 = mgr.connect();
    let id2 = mgr.connect();

    mgr.promote(id1, "alice".into()).unwrap();
    let result = mgr.promote(id2, "alice".into());
    assert!(result.is_err());
}

#[test]
fn disconnect_player_then_promote_new_with_same_username() {
    let mut mgr = SessionManager::new();
    let id1 = mgr.connect();
    mgr.promote(id1, "alice".into()).unwrap();
    mgr.disconnect(id1);

    let id2 = mgr.connect();
    mgr.promote(id2, "alice".into()).unwrap();
    match mgr.get(id2) {
        Some(Session::Player { username }) => assert_eq!(username, "alice"),
        _ => panic!("expected Player"),
    }
}

#[test]
fn spectator_is_not_player() {
    let mut mgr = SessionManager::new();
    let id = mgr.connect();

    assert!(matches!(mgr.get(id), Some(Session::Spectator)));

    assert_eq!(mgr.player_sessions().len(), 0);
}

#[test]
fn session_numbers_are_never_reused() {
    let mut mgr = SessionManager::new();
    let a = mgr.connect();
    mgr.disconnect(a);
    let b = mgr.connect();
    let c = mgr.connect();
    assert_ne!(a, b);
    assert_ne!(b, c);
    assert_ne!(a, c);
    assert_eq!(mgr.all_sessions().len(), 2);
}

#[test]
fn promote_errors_carry_their_text() {
    let mut mgr = SessionManager::new();
    let a = mgr.connect();
    mgr.disconnect(a);
    assert_eq!(mgr.promote(a, "x".into()), Err(SessionError::NotFound));
    let b = mgr.connect();
    mgr.promote(b, "x".into()).unwrap();
    assert_eq!(mgr.promote(b, "x".into()), Err(SessionError::UsernameTaken));
    assert_eq!(SessionError::NotFound.message(), "session not found");
    assert_eq!(SessionError::UsernameTaken.message(), "username already connected");
}

#[test]
fn player_sessions_lists_each_player_once() {
    let mut mgr = SessionManager::new();
    let a = mgr.connect();
    let b = mgr.connect();
    let _c = mgr.connect();
    mgr.promote(a, "alice".into()).unwrap();
    mgr.promote(b, "bob".into()).unwrap();
    let mut players: Vec<String> = mgr.player_sessions().into_iter().map(|(_, n)| n).collect();
    players.sort();
    assert_eq!(players, vec!["alice".to_string(), "bob".to_string()]);
}
