//! The role-gated operations the HTTP handler layer calls, and the sweeper's
//! start decision.
//!
//! Every inbound request first has its credential resolved to a [`Role`];
//! handlers then call these operations with that level. The sweeper runs
//! beside them as a perpetual loop alternating Sleeping (the configured
//! interval) and Sweeping (one [`GameStore::sweep`] pass); it is started once
//! at most, only when [`sweeper_config`] yields its parameters, and stops
//! only with the process.

use vstd::prelude::*;
use crate::idgen::{allocate_id, is_url_safe};
use crate::roles::Role;
use crate::store::{distinct_keys, empty_record, map_of, GameStore, GameTurn};

verus! {

/// The broker's failure taxonomy. A lookup on an absent game id is a valid,
/// expected outcome, not a failure: reads report it as an absent record.
#[derive(Clone, Copy, Debug, PartialEq, Eq, Structural)]
pub enum RelayError {
    /// The resolved access level is below the level the operation requires;
    /// surfaced to the caller as a rejection, never retried internally.
    Unauthorized,
    /// Every id-generation attempt collided: practically unreachable, fatal
    /// to the single create-game request, not to the process.
    AllocatorExhausted,
}

/// The create-game operation: at User level, allocates a fresh id and
/// reserves it — always succeeding when the store is empty; below User
/// level, rejects and leaves the store unchanged.
pub fn create_game(store: &mut GameStore, role: Role) -> (r: Result<String, RelayError>)
    ensures
        !role.satisfies(Role::User) ==> r == Err::<String, RelayError>(RelayError::Unauthorized)
            && final(store)@ == old(store)@,
        role.satisfies(Role::User) ==> match r {
            Ok(id) => !old(store)@.contains_key(id@) && id@.len() == 8 && is_url_safe(id@)
                && final(store)@ == old(store)@.insert(id@, empty_record()),
            Err(e) => e == RelayError::AllocatorExhausted && final(store)@ == old(store)@,
        },
        role.satisfies(Role::User) && old(store)@ == Map::<Seq<char>, GameTurn>::empty()
            ==> r is Ok,
{
    if !role.at_least(Role::User) {
        return Err(RelayError::Unauthorized);
    }
    allocate_id(store)
}

/// The read operation: at User level, returns the current record for `id`,
/// with absence (an id never written and never reserved) reported as
/// `Ok(None)` — a valid outcome, never an error and never a default-valued
/// record; below User level, rejects.
pub fn game_get(store: &GameStore, role: Role, id: &String) -> (r: Result<
    Option<GameTurn>,
    RelayError,
>)
    ensures
        role.satisfies(Role::User) ==> r == Ok::<Option<GameTurn>, RelayError>(
            if store@.contains_key(id@) {
                Some(store@[id@])
            } else {
                None
            },
        ),
        !role.satisfies(Role::User) ==> r == Err::<Option<GameTurn>, RelayError>(
            RelayError::Unauthorized,
        ),
{
    if !role.at_least(Role::User) {
        return Err(RelayError::Unauthorized);
    }
    Ok(store.get(id))
}

/// The write operation: at User level, inserts or replaces the record for
/// `id`, the store stamping the write time as part of the same atomic step,
/// and returns the stored record, stamp included; below User level, rejects
/// and leaves the store unchanged.
pub fn game_post(store: &mut GameStore, role: Role, id: String, rec: GameTurn) -> (r: Result<
    GameTurn,
    RelayError,
>)
    ensures
        !role.satisfies(Role::User) ==> r == Err::<GameTurn, RelayError>(RelayError::Unauthorized)
            && final(store)@ == old(store)@,
        role.satisfies(Role::User) ==> (r matches Ok(stamped) && stamped.from == rec.from
            && stamped.to == rec.to && stamped.turn == rec.turn && stamped.updated is Some
            && final(store)@ == old(store)@.insert(id@, stamped)),
{
    if !role.at_least(Role::User) {
        return Err(RelayError::Unauthorized);
    }
    Ok(store.put(id, rec))
}

/// The administrative inspection: at Admin level, a consistent point-in-time
/// copy of all records, sharing nothing with the live store; below Admin
/// level, rejects.
pub fn admin_state(store: &GameStore, role: Role) -> (r: Result<
    Vec<(String, GameTurn)>,
    RelayError,
>)
    ensures
        role.satisfies(Role::Admin) ==> (r matches Ok(snap) && map_of(snap@) == store@
            && distinct_keys(snap@)),
        !role.satisfies(Role::Admin) ==> r == Err::<Vec<(String, GameTurn)>, RelayError>(
            RelayError::Unauthorized,
        ),
{
    if !role.at_least(Role::Admin) {
        return Err(RelayError::Unauthorized);
    }
    Ok(store.snapshot())
}

/// The administrative clear: at Admin level, atomically empties the whole
/// store; below Admin level, rejects and leaves the store unchanged.
pub fn admin_clear(store: &mut GameStore, role: Role) -> (r: Result<(), RelayError>)
    ensures
        role.satisfies(Role::Admin) ==> r == Ok::<(), RelayError>(()) && final(store)@
            == Map::<Seq<char>, GameTurn>::empty(),
        !role.satisfies(Role::Admin) ==> r == Err::<(), RelayError>(RelayError::Unauthorized)
            && final(store)@ == old(store)@,
{
    if !role.at_least(Role::Admin) {
        return Err(RelayError::Unauthorized);
    }
    store.clear();
    Ok(())
}

/// The sweeper's start decision: it runs only when both an expiry age and a
/// sweep interval are configured, and is started at most once; with either
/// unset no sweeper runs, and games then live until cleared or the process
/// restarts. Returns the (max age, interval) pair, in seconds, that the
/// sweeper's loop uses.
pub fn sweeper_config(expires_secs: Option<u64>, cleanup_secs: Option<u64>) -> (r: Option<
    (u64, u64),
>)
    ensures
        r == (match (expires_secs, cleanup_secs) {
            (Some(e), Some(c)) => Some((e, c)),
            _ => None::<(u64, u64)>,
        }),
{
    match (expires_secs, cleanup_secs) {
        (Some(e), Some(c)) => Some((e, c)),
        _ => None,
    }
}

} // verus!
