use game_broker::coord::GameCoord;
use game_broker::store::{GameStore, GameTurn};

fn turn(row: u8, col: u8, n: u16) -> GameTurn {
    GameTurn {
        from: GameCoord { row, col },
        to: GameCoord { row: col, col: row },
        turn: n,
        updated: None,
    }
}

#[test]
fn get_on_unwritten_id_is_absent() {
    let store = GameStore::new();
    assert_eq!(store.get(&String::from("never")), None);
    let mut store = GameStore::new();
    store.put_at(String::from("g1"), turn(0, 0, 1), 10);
    assert_eq!(store.get(&String::from("g2")), None);
}

#[test]
fn put_at_stamps_and_stores() {
    let mut store = GameStore::new();
    let stamped = store.put_at(String::from("g1"), turn(2, 3, 7), 100);
    assert_eq!(stamped.updated, Some(100));
    assert_eq!(stamped.turn, 7);
    let got = store.get(&String::from("g1")).unwrap();
    assert_eq!(got, stamped);
    assert_eq!(got.from, GameCoord { row: 2, col: 3 });
    assert_eq!(got.updated, Some(100));
}

#[test]
fn put_stamps_with_the_clock() {
    let mut store = GameStore::new();
    let stamped = store.put(String::from("g1"), turn(0, 0, 1));
    assert!(stamped.updated.is_some());
    assert_eq!(store.get(&String::from("g1")).unwrap(), stamped);
}

#[test]
fn last_write_per_id_wins() {
    let mut store = GameStore::new();
    store.put_at(String::from("g1"), turn(1, 1, 1), 10);
    let second = store.put_at(String::from("g1"), turn(2, 2, 2), 20);
    assert_eq!(store.get(&String::from("g1")).unwrap(), second);
    // A lower turn number still overwrites: the store does not enforce order.
    let third = store.put_at(String::from("g1"), turn(3, 3, 1), 30);
    assert_eq!(store.get(&String::from("g1")).unwrap(), third);
}

#[test]
fn puts_on_distinct_ids_all_land() {
    let mut store = GameStore::new();
    let a = store.put_at(String::from("g1"), turn(1, 1, 1), 10);
    let b = store.put_at(String::from("g2"), turn(2, 2, 2), 20);
    let c = store.put_at(String::from("g3"), turn(3, 3, 3), 30);
    assert_eq!(store.get(&String::from("g1")).unwrap(), a);
    assert_eq!(store.get(&String::from("g2")).unwrap(), b);
    assert_eq!(store.get(&String::from("g3")).unwrap(), c);
}

#[test]
fn snapshot_is_exact_and_detached() {
    let mut store = GameStore::new();
    assert_eq!(store.snapshot().len(), 0);
    let a = store.put_at(String::from("g1"), turn(1, 1, 1), 10);
    let b = store.put_at(String::from("g2"), turn(2, 2, 2), 20);
    let mut snap = store.snapshot();
    assert_eq!(snap.len(), 2);
    snap.sort_by(|x, y| x.0.cmp(&y.0));
    assert_eq!(snap[0], (String::from("g1"), a));
    assert_eq!(snap[1], (String::from("g2"), b));
    // Mutating the copy must not touch the store.
    snap.clear();
    assert_eq!(store.get(&String::from("g1")).unwrap(), a);
}

#[test]
fn clear_empties_everything() {
    let mut store = GameStore::new();
    store.put_at(String::from("g1"), turn(1, 1, 1), 10);
    store.put_at(String::from("g2"), turn(2, 2, 2), 20);
    store.clear();
    assert_eq!(store.get(&String::from("g1")), None);
    assert_eq!(store.get(&String::from("g2")), None);
    assert_eq!(store.snapshot().len(), 0);
}

#[test]
fn evict_expired_takes_only_stale_records() {
    let now: u64 = 1000;
    let mut store = GameStore::new();
    // Age 61s with a 60s maximum: evicted.
    store.put_at(String::from("old"), turn(1, 1, 1), now - 61);
    // Age 59s: retained.
    let fresh = store.put_at(String::from("fresh"), turn(2, 2, 2), now - 59);
    // Age exactly 60s is not older than the maximum: retained.
    let edge = store.put_at(String::from("edge"), turn(3, 3, 3), now - 60);
    store.evict_expired(60, now);
    assert_eq!(store.get(&String::from("old")), None);
    assert_eq!(store.get(&String::from("fresh")).unwrap(), fresh);
    assert_eq!(store.get(&String::from("edge")).unwrap(), edge);
}

#[test]
fn evict_expired_skips_unstamped_records() {
    // A just-reserved game has no stamp yet and is never evicted, however
    // late the sweep runs.
    let mut store = GameStore::new();
    let id = game_broker::relay::create_game(&mut store, game_broker::roles::Role::User)
        .ok()
        .unwrap();
    let reserved = store.get(&id).unwrap();
    assert_eq!(reserved.updated, None);
    let stale = store.put_at(String::from("stale"), turn(1, 1, 1), 5);
    assert!(stale.updated.is_some());
    store.evict_expired(60, 1_000_000);
    assert_eq!(store.get(&id).unwrap(), reserved);
    assert_eq!(store.get(&String::from("stale")), None);
}

#[test]
fn evict_expired_ignores_future_stamps() {
    let mut store = GameStore::new();
    let ahead = store.put_at(String::from("ahead"), turn(1, 1, 1), 5000);
    // The stamp lies after `now`: elapsed time is undefined, so it stays.
    store.evict_expired(60, 1000);
    assert_eq!(store.get(&String::from("ahead")).unwrap(), ahead);
}
