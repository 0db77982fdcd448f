//! The randomized game-id allocator.

use vstd::prelude::*;
use crate::relay::RelayError;
use crate::store::{GameStore, GameTurn, empty_record};

verus! {

/// Is `c` one of the URL-safe id symbols `A`-`Z`, `a`-`z`, `0`-`9`, `_`, `-`?
pub open spec fn is_url_safe_char(c: char) -> bool {
    c == '_' || c == '-' || ('0' <= c && c <= '9') || ('a' <= c && c <= 'z') || ('A' <= c && c
        <= 'Z')
}

/// Every character of `s` is a URL-safe id symbol.
pub open spec fn is_url_safe(s: Seq<char>) -> bool {
    forall|i: int| 0 <= i < s.len() ==> is_url_safe_char(#[trigger] s[i])
}

/// Relies on `nanoid::format` with the URL-safe alphabet
/// `nanoid::alphabet::SAFE` (the 64 symbols `A`-`Z`, `a`-`z`, `0`-`9`, `_`,
/// `-`) and the default random source `nanoid::rngs::default`: the returned
/// token holds exactly 8 characters, each drawn from that alphabet. Which
/// characters come back is random; nothing more is promised of them.
#[verifier::external_body]
fn random_token() -> (r: String)
    ensures
        r@.len() == 8,
        is_url_safe(r@),
{
    nanoid::format(nanoid::rngs::default, &nanoid::alphabet::SAFE, 8)
}

/// Allocates a game id not currently present in the store and reserves it
/// with the empty record, in one step against the store it read. Generation
/// retries while the drawn token collides, up to a safety cap of 100
/// attempts that fails loudly when exhausted — practically unreachable given
/// the token space, but handled, not ignored. On success the id is fresh,
/// 8 URL-safe characters, and now reserved; on exhaustion the store is
/// unchanged. Exhaustion takes collisions, so on an empty store allocation
/// always succeeds: the first draw cannot collide.
pub fn allocate_id(store: &mut GameStore) -> (r: Result<String, RelayError>)
    ensures
        r matches Ok(id) ==> !old(store)@.contains_key(id@) && id@.len() == 8 && is_url_safe(id@)
            && final(store)@ == old(store)@.insert(id@, empty_record()),
        r is Err ==> r == Err::<String, RelayError>(RelayError::AllocatorExhausted)
            && final(store)@ == old(store)@,
        old(store)@ == Map::<Seq<char>, GameTurn>::empty() ==> r is Ok,
{
    let mut attempts: usize = 0;
    while attempts < 100
        invariant
            *store == *old(store),
            attempts > 0 ==> old(store)@ != Map::<Seq<char>, GameTurn>::empty(),
        decreases 100 - attempts,
    {
        let tok = random_token();
        if !store.contains_id(&tok) {
            let id = tok.clone();
            store.reserve(tok);
            return Ok(id);
        }
        attempts += 1;
    }
    Err(RelayError::AllocatorExhausted)
}

proof fn lemma_store_keys_monotone(
    stores: Seq<Map<Seq<char>, GameTurn>>,
    ids: Seq<Seq<char>>,
    recs: Seq<GameTurn>,
    a: int,
    b: int,
)
    requires
        stores.len() == ids.len() + 1,
        recs.len() == ids.len(),
        forall|i: int|
            0 <= i < ids.len() ==> stores[i + 1] == #[trigger] stores[i].insert(ids[i], recs[i]),
        0 <= a <= b < stores.len(),
    ensures
        forall|k: Seq<char>| #[trigger] stores[a].contains_key(k) ==> stores[b].contains_key(k),
    decreases b - a,
{
    if a < b {
        lemma_store_keys_monotone(stores, ids, recs, a, b - 1);
        assert(stores[b] == stores[b - 1].insert(ids[b - 1], recs[b - 1]));
    }
}

/// Law: in any single-threaded run of successful allocations — each
/// returning an id absent from the store it read and leaving the store with
/// that id reserved, as `allocate_id`'s contract states — the returned ids
/// are pairwise distinct: N allocations in sequence never return the same id
/// twice. `stores[i]` is the store contents before the `i`-th allocation,
/// `ids[i]` the id it returned, `recs[i]` the record it reserved.
pub proof fn lemma_sequential_allocations_distinct(
    stores: Seq<Map<Seq<char>, GameTurn>>,
    ids: Seq<Seq<char>>,
    recs: Seq<GameTurn>,
)
    requires
        stores.len() == ids.len() + 1,
        recs.len() == ids.len(),
        forall|i: int| 0 <= i < ids.len() ==> !(#[trigger] stores[i].contains_key(ids[i])),
        forall|i: int|
            0 <= i < ids.len() ==> stores[i + 1] == #[trigger] stores[i].insert(ids[i], recs[i]),
    ensures
        forall|i: int, j: int| 0 <= i < j < ids.len() ==> ids[i] != ids[j],
{
    assert forall|i: int, j: int| 0 <= i < j < ids.len() implies ids[i] != ids[j] by {
        assert(stores[i + 1] == stores[i].insert(ids[i], recs[i]));
        assert(stores[i + 1].contains_key(ids[i]));
        lemma_store_keys_monotone(stores, ids, recs, i + 1, j);
        assert(stores[j].contains_key(ids[i]));
        assert(!stores[j].contains_key(ids[j]));
    }
}

} // verus!
