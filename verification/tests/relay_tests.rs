use game_broker::coord::GameCoord;
use game_broker::idgen::allocate_id;
use game_broker::relay::{
    admin_clear, admin_state, create_game, game_get, game_post, sweeper_config, RelayError,
};
use game_broker::roles::Role;
use game_broker::store::{GameStore, GameTurn};

fn turn(fr: (u8, u8), to: (u8, u8), n: u16) -> GameTurn {
    GameTurn {
        from: GameCoord { row: fr.0, col: fr.1 },
        to: GameCoord { row: to.0, col: to.1 },
        turn: n,
        updated: None,
    }
}

fn is_url_safe(s: &str) -> bool {
    s.chars()
        .all(|c| c.is_ascii_alphanumeric() || c == '_' || c == '-')
}

#[test]
fn guests_are_rejected_everywhere() {
    let mut store = GameStore::new();
    assert_eq!(create_game(&mut store, Role::Guest), Err(RelayError::Unauthorized));
    assert_eq!(
        game_get(&store, Role::Guest, &String::from("g1")),
        Err(RelayError::Unauthorized)
    );
    assert_eq!(
        game_post(&mut store, Role::Guest, String::from("g1"), turn((0, 0), (1, 1), 1)),
        Err(RelayError::Unauthorized)
    );
    assert_eq!(store.get(&String::from("g1")), None);
}

#[test]
fn admin_operations_require_admin() {
    let mut store = GameStore::new();
    game_post(&mut store, Role::User, String::from("g1"), turn((0, 0), (1, 1), 1)).unwrap();
    assert!(matches!(admin_state(&store, Role::User), Err(RelayError::Unauthorized)));
    assert_eq!(admin_clear(&mut store, Role::User), Err(RelayError::Unauthorized));
    assert!(store.get(&String::from("g1")).is_some());
    // Admin passes every check User passes, and its own.
    let snap = admin_state(&store, Role::Admin).ok().unwrap();
    assert_eq!(snap.len(), 1);
    assert_eq!(admin_clear(&mut store, Role::Admin), Ok(()));
    assert_eq!(store.get(&String::from("g1")), None);
}

#[test]
fn admin_satisfies_user_checks() {
    let mut store = GameStore::new();
    let id = create_game(&mut store, Role::Admin).ok().unwrap();
    assert!(game_get(&store, Role::Admin, &id).is_ok());
}

#[test]
fn end_to_end_relay_round() {
    let mut store = GameStore::new();
    let id = create_game(&mut store, Role::User).ok().unwrap();
    assert_eq!(id.len(), 8);
    assert!(is_url_safe(&id));
    // The reservation is visible but unwritten.
    let reserved = game_get(&store, Role::User, &id).ok().unwrap().unwrap();
    assert_eq!(reserved.updated, None);
    // First write: the store stamps the record.
    let sent = turn((0, 0), (1, 1), 1);
    let stamped = game_post(&mut store, Role::User, id.clone(), sent).ok().unwrap();
    assert!(stamped.updated.is_some());
    assert_eq!(stamped.from, sent.from);
    assert_eq!(stamped.to, sent.to);
    assert_eq!(stamped.turn, 1);
    let read = game_get(&store, Role::User, &id).ok().unwrap().unwrap();
    assert_eq!(read, stamped);
    // Clear everything; the id is gone, reported as absence, not an error.
    admin_clear(&mut store, Role::Admin).unwrap();
    assert_eq!(game_get(&store, Role::User, &id), Ok(None));
}

#[test]
fn allocated_ids_are_fresh_and_distinct() {
    let mut store = GameStore::new();
    let mut seen: Vec<String> = Vec::new();
    for _ in 0..64 {
        let id = allocate_id(&mut store).ok().unwrap();
        assert_eq!(id.len(), 8);
        assert!(is_url_safe(&id));
        assert!(!seen.contains(&id));
        // The allocation reserved the id, so later rounds cannot reuse it.
        assert!(store.get(&id).is_some());
        seen.push(id);
    }
}

#[test]
fn sweeper_runs_only_when_fully_configured() {
    assert_eq!(sweeper_config(Some(60), Some(30)), Some((60, 30)));
    assert_eq!(sweeper_config(Some(60), None), None);
    assert_eq!(sweeper_config(None, Some(30)), None);
    assert_eq!(sweeper_config(None, None), None);
}

#[test]
fn sweep_with_the_clock_takes_ancient_records() {
    let mut store = GameStore::new();
    // A stamp at the epoch is far past any sane max age.
    store.put_at(String::from("ancient"), turn((1, 1), (2, 2), 1), 1);
    let recent = store.put(String::from("recent"), turn((3, 3), (4, 4), 2));
    store.sweep(3600);
    assert_eq!(store.get(&String::from("ancient")), None);
    assert_eq!(store.get(&String::from("recent")).unwrap(), recent);
}
