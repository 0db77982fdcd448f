//! The game store: the map of game id to turn record, with the expiry sweep.

use vstd::prelude::*;
use crate::coord::GameCoord;

verus! {

/// The value stored per game id: the last submitted move, the caller-supplied
/// turn sequence number, and the store-stamped time of the last successful
/// write (whole seconds since the Unix epoch; absent until the first write).
///
/// The `turn` field is not validated or incremented by the store: a write
/// always overwrites with whatever the writer sends, so a later write with a
/// lower turn number wins. Callers needing strict turn ordering must check
/// sequence numbers themselves; this is a documented relay-layer limitation.
#[derive(Clone, Copy, Debug, PartialEq)]
pub struct GameTurn {
    pub from: GameCoord,
    pub to: GameCoord,
    pub turn: u16,
    pub updated: Option<u64>,
}

/// The record a reservation stores: zero coordinates, turn 0, never written.
pub open spec fn empty_record() -> GameTurn {
    GameTurn {
        from: GameCoord { row: 0, col: 0 },
        to: GameCoord { row: 0, col: 0 },
        turn: 0,
        updated: None,
    }
}

impl Default for GameTurn {
    fn default() -> (r: Self)
        ensures
            r == empty_record(),
    {
        GameTurn {
            from: GameCoord { row: 0, col: 0 },
            to: GameCoord { row: 0, col: 0 },
            turn: 0,
            updated: None,
        }
    }
}

/// Does the record count as expired at time `now`, with the given maximum age
/// in seconds? A record never written (`updated` absent) is never expired,
/// which shields a just-reserved, not-yet-written game from the sweep; a
/// stamp in the clock's future is not expired either.
pub open spec fn is_expired(rec: GameTurn, max_age_secs: u64, now: u64) -> bool {
    match rec.updated {
        Some(t) => t <= now && now - t > max_age_secs,
        None => false,
    }
}

/// The keys of `after` are exactly the keys of `before` whose record had not
/// expired at time `now`.
pub open spec fn sweep_outcome(
    before: Map<Seq<char>, GameTurn>,
    after: Map<Seq<char>, GameTurn>,
    max_age_secs: u64,
    now: u64,
) -> bool {
    forall|k: Seq<char>| #[trigger] after.contains_key(k) <==> (before.contains_key(k)
        && !is_expired(before[k], max_age_secs, now))
}

fn check_expired(rec: &GameTurn, max_age_secs: u64, now: u64) -> (r: bool)
    ensures
        r == is_expired(*rec, max_age_secs, now),
{
    match rec.updated {
        Some(t) => t <= now && now - t > max_age_secs,
        None => false,
    }
}

/// The ids of the entry list, read as strings, are pairwise distinct.
pub open spec fn distinct_keys(e: Seq<(String, GameTurn)>) -> bool {
    forall|i: int, j: int| 0 <= i < j < e.len() ==> e[i].0@ != e[j].0@
}

/// The entry list read as a map from game id to record; a later entry for an
/// id overrides an earlier one.
pub open spec fn map_of(e: Seq<(String, GameTurn)>) -> Map<Seq<char>, GameTurn>
    decreases e.len(),
{
    if e.len() == 0 {
        Map::empty()
    } else {
        map_of(e.drop_last()).insert(e.last().0@, e.last().1)
    }
}

proof fn lemma_map_of_contains(e: Seq<(String, GameTurn)>, k: Seq<char>)
    ensures
        map_of(e).contains_key(k) <==> exists|i: int| 0 <= i < e.len() && e[i].0@ == k,
    decreases e.len(),
{
    if e.len() > 0 {
        lemma_map_of_contains(e.drop_last(), k);
        if e.last().0@ == k {
            assert(e[e.len() - 1].0@ == k);
        } else {
            if map_of(e).contains_key(k) {
                let i = choose|i: int|
                    0 <= i < e.drop_last().len() && e.drop_last()[i].0@ == k;
                assert(e[i].0@ == k);
            }
            if exists|i: int| 0 <= i < e.len() && e[i].0@ == k {
                let i = choose|i: int| 0 <= i < e.len() && e[i].0@ == k;
                assert(i < e.len() - 1);
                assert(e.drop_last()[i].0@ == k);
            }
        }
    }
}

proof fn lemma_map_of_index(e: Seq<(String, GameTurn)>, i: int)
    requires
        distinct_keys(e),
        0 <= i < e.len(),
    ensures
        map_of(e).contains_key(e[i].0@),
        map_of(e)[e[i].0@] == e[i].1,
    decreases e.len(),
{
    if i < e.len() - 1 {
        assert(distinct_keys(e.drop_last()));
        lemma_map_of_index(e.drop_last(), i);
        assert(e.drop_last()[i] == e[i]);
        assert(e.last().0@ != e[i].0@);
    }
}

proof fn lemma_map_of_update_value(e: Seq<(String, GameTurn)>, i: int, v: GameTurn)
    requires
        distinct_keys(e),
        0 <= i < e.len(),
    ensures
        map_of(e.update(i, (e[i].0, v))) == map_of(e).insert(e[i].0@, v),
    decreases e.len(),
{
    let e2 = e.update(i, (e[i].0, v));
    if i == e.len() - 1 {
        assert(e2.drop_last() =~= e.drop_last());
        assert(e2.last() == (e[i].0, v));
        assert(map_of(e2) =~= map_of(e).insert(e[i].0@, v));
    } else {
        assert(distinct_keys(e.drop_last()));
        lemma_map_of_update_value(e.drop_last(), i, v);
        assert(e2.drop_last() =~= e.drop_last().update(i, (e[i].0, v)));
        assert(e.drop_last()[i] == e[i]);
        assert(e2.last() == e.last());
        assert(e.last().0@ != e[i].0@);
        assert(map_of(e2) =~= map_of(e).insert(e[i].0@, v));
    }
}

/// The concurrent map of game id to turn record. Operations are each one
/// atomic step over the whole store; the surrounding process serializes them
/// (one lock around the store, held for a single operation at a time), so the
/// contracts below describe every linearized history.
pub struct GameStore {
    entries: Vec<(String, GameTurn)>,
}

impl View for GameStore {
    type V = Map<Seq<char>, GameTurn>;

    closed spec fn view(&self) -> Map<Seq<char>, GameTurn> {
        map_of(self.entries@)
    }
}

impl GameStore {
    /// At most one record exists per game id.
    #[verifier::type_invariant]
    spec fn wf(self) -> bool {
        distinct_keys(self.entries@)
    }

    /// Creates an empty store: no game id has any record.
    pub fn new() -> (s: GameStore)
        ensures
            s@ == Map::<Seq<char>, GameTurn>::empty(),
    {
        GameStore { entries: Vec::new() }
    }

    fn index_of_key(&self, id: &String) -> (r: Option<usize>)
        ensures
            match r {
                Some(i) => i < self.entries@.len() && self.entries@[i as int].0@ == id@,
                None => forall|j: int|
                    0 <= j < self.entries@.len() ==> self.entries@[j].0@ != id@,
            },
    {
        let n = self.entries.len();
        let mut i: usize = 0;
        while i < n
            invariant
                n == self.entries@.len(),
                i <= n,
                forall|j: int| 0 <= j < i ==> self.entries@[j].0@ != id@,
            decreases n - i,
        {
            if self.entries[i].0 == *id {
                return Some(i);
            }
            i += 1;
        }
        None
    }

    /// Returns the current record for `id`, or absence when no record exists
    /// for it — never a default-valued record.
    pub fn get(&self, id: &String) -> (r: Option<GameTurn>)
        ensures
            r == (if self@.contains_key(id@) {
                Some(self@[id@])
            } else {
                None::<GameTurn>
            }),
    {
        proof {
            use_type_invariant(self);
        }
        match self.index_of_key(id) {
            Some(i) => {
                proof {
                    lemma_map_of_index(self.entries@, i as int);
                }
                Some(self.entries[i].1)
            },
            None => {
                proof {
                    lemma_map_of_contains(self.entries@, id@);
                }
                None
            },
        }
    }

    /// Is a record present for `id`?
    pub fn contains_id(&self, id: &String) -> (r: bool)
        ensures
            r == self@.contains_key(id@),
    {
        self.get(id).is_some()
    }

    /// Inserts or replaces the record for `id` in one step.
    fn insert_record(&mut self, id: String, rec: GameTurn)
        ensures
            final(self)@ == old(self)@.insert(id@, rec),
    {
        proof {
            use_type_invariant(&*self);
        }
        match self.index_of_key(&id) {
            Some(i) => {
                let mut entries: Vec<(String, GameTurn)> = Vec::new();
                core::mem::swap(&mut entries, &mut self.entries);
                entries[i].1 = rec;
                proof {
                    let e0 = old(self).entries@;
                    assert(entries@ =~= e0.update(i as int, (e0[i as int].0, rec)));
                    assert forall|p: int, q: int|
                        0 <= p < q < entries@.len() implies entries@[p].0@
                        != entries@[q].0@ by {
                        assert(entries@[p].0 == e0[p].0);
                        assert(entries@[q].0 == e0[q].0);
                    }
                    lemma_map_of_update_value(e0, i as int, rec);
                }
                self.entries = entries;
            },
            None => {
                let mut entries: Vec<(String, GameTurn)> = Vec::new();
                core::mem::swap(&mut entries, &mut self.entries);
                entries.push((id, rec));
                proof {
                    let e0 = old(self).entries@;
                    assert(entries@.drop_last() =~= e0);
                    assert(distinct_keys(entries@));
                }
                self.entries = entries;
            },
        }
    }

    /// Inserts or replaces the record for `id`, stamping `updated` with the
    /// given write time as part of the same atomic step. Returns the stored
    /// record, stamp included.
    pub fn put_at(&mut self, id: String, rec: GameTurn, now: u64) -> (stamped: GameTurn)
        ensures
            stamped == (GameTurn { from: rec.from, to: rec.to, turn: rec.turn, updated: Some(now) }),
            final(self)@ == old(self)@.insert(id@, stamped),
    {
        let stamped = GameTurn { from: rec.from, to: rec.to, turn: rec.turn, updated: Some(now) };
        self.insert_record(id, stamped);
        stamped
    }

    /// Inserts or replaces the record for `id`, stamping `updated` with the
    /// current wall-clock time as part of the same atomic step. The returned
    /// record is exactly what was stored; whatever time the clock read, the
    /// stamp is present.
    pub fn put(&mut self, id: String, rec: GameTurn) -> (stamped: GameTurn)
        ensures
            stamped.from == rec.from,
            stamped.to == rec.to,
            stamped.turn == rec.turn,
            stamped.updated is Some,
            final(self)@ == old(self)@.insert(id@, stamped),
    {
        let now = now_unix_secs();
        self.put_at(id, rec, now)
    }

    /// Reserves `id` with the empty record, as the create-game operation does
    /// before any write occurs. The reservation carries no `updated` stamp,
    /// so the expiry sweep never takes a just-reserved game.
    pub(crate) fn reserve(&mut self, id: String)
        ensures
            final(self)@ == old(self)@.insert(id@, empty_record()),
    {
        self.insert_record(id, GameTurn::default());
    }

    /// Atomically empties the whole store.
    pub fn clear(&mut self)
        ensures
            final(self)@ == Map::<Seq<char>, GameTurn>::empty(),
    {
        self.entries = Vec::new();
    }

    /// A consistent point-in-time copy for administrative inspection: a list
    /// of (id, record) pairs with pairwise-distinct ids that, read as a map,
    /// is exactly the store's contents. The copy shares no structure with the
    /// live store, so the caller cannot disturb its invariants.
    pub fn snapshot(&self) -> (r: Vec<(String, GameTurn)>)
        ensures
            map_of(r@) == self@,
            distinct_keys(r@),
    {
        proof {
            use_type_invariant(self);
        }
        let n = self.entries.len();
        let mut r: Vec<(String, GameTurn)> = Vec::new();
        let mut i: usize = 0;
        while i < n
            invariant
                n == self.entries@.len(),
                i <= n,
                r@ == self.entries@.take(i as int),
            decreases n - i,
        {
            let id_copy = self.entries[i].0.clone();
            r.push((id_copy, self.entries[i].1));
            proof {
                assert(r@ =~= self.entries@.take(i as int + 1));
            }
            i += 1;
        }
        proof {
            assert(self.entries@.take(n as int) =~= self.entries@);
        }
        r
    }

    /// Atomically removes every record whose stamp is older than
    /// `max_age_secs` relative to `now`. Records never written (no stamp) are
    /// retained regardless of `now`, and every retained record is unchanged.
    pub fn evict_expired(&mut self, max_age_secs: u64, now: u64)
        ensures
            sweep_outcome(old(self)@, final(self)@, max_age_secs, now),
            forall|k: Seq<char>| #[trigger] final(self)@.contains_key(k)
                ==> final(self)@[k] == old(self)@[k],
    {
        proof {
            use_type_invariant(&*self);
        }
        let n = self.entries.len();
        let mut kept: Vec<(String, GameTurn)> = Vec::new();
        let mut i: usize = 0;
        while i < n
            invariant
                n == self.entries@.len(),
                i <= n,
                self.entries@ == old(self).entries@,
                distinct_keys(self.entries@),
                kept@ == retained(self.entries@.take(i as int), max_age_secs, now),
            decreases n - i,
        {
            if !check_expired(&self.entries[i].1, max_age_secs, now) {
                let id_copy = self.entries[i].0.clone();
                kept.push((id_copy, self.entries[i].1));
            }
            proof {
                assert(self.entries@.take(i as int + 1).drop_last() =~= self.entries@.take(
                    i as int,
                ));
                assert(self.entries@.take(i as int + 1).last() == self.entries@[i as int]);
                assert(kept@ =~= retained(self.entries@.take(i as int + 1), max_age_secs, now));
            }
            i += 1;
        }
        proof {
            assert(self.entries@.take(n as int) =~= self.entries@);
            lemma_retained(self.entries@, max_age_secs, now);
        }
        self.entries = kept;
    }

    /// One pass of the expiry sweep, read with the wall clock: the Sweeping
    /// state of the sweeper's loop. Whatever time the clock read, no record
    /// is altered or added, a record never written is retained, and what was
    /// removed is exactly what had expired at the time read.
    pub fn sweep(&mut self, max_age_secs: u64)
        ensures
            forall|k: Seq<char>| #[trigger] final(self)@.contains_key(k) ==> old(self)@.contains_key(
                k,
            ) && final(self)@[k] == old(self)@[k],
            forall|k: Seq<char>|
                old(self)@.contains_key(k) && old(self)@[k].updated is None
                    ==> #[trigger] final(self)@.contains_key(k),
            exists|now: u64| #[trigger] sweep_outcome(old(self)@, final(self)@, max_age_secs, now),
    {
        let now = now_unix_secs();
        self.evict_expired(max_age_secs, now);
        proof {
            assert(sweep_outcome(old(self)@, final(self)@, max_age_secs, now));
        }
    }
}

/// Relies on std's `SystemTime::now` for the wall clock: the current time as
/// whole seconds since the Unix epoch, or `None` when the clock reads
/// earlier than the epoch. Nothing is promised of the value; it depends on
/// the machine's clock.
#[verifier::external_body]
fn clock_unix_secs() -> Option<u64> {
    match std::time::SystemTime::now().duration_since(std::time::UNIX_EPOCH) {
        Ok(d) => Some(d.as_secs()),
        Err(_) => None,
    }
}

/// The write-stamp time: the wall clock, with a clock before the epoch read
/// as the epoch itself.
fn now_unix_secs() -> u64 {
    match clock_unix_secs() {
        Some(t) => t,
        None => 0,
    }
}

spec fn retained(e: Seq<(String, GameTurn)>, max_age_secs: u64, now: u64) -> Seq<
    (String, GameTurn),
>
    decreases e.len(),
{
    if e.len() == 0 {
        Seq::empty()
    } else {
        let prefix = retained(e.drop_last(), max_age_secs, now);
        if is_expired(e.last().1, max_age_secs, now) {
            prefix
        } else {
            prefix.push(e.last())
        }
    }
}

proof fn lemma_retained(e: Seq<(String, GameTurn)>, max_age_secs: u64, now: u64)
    requires
        distinct_keys(e),
    ensures
        distinct_keys(retained(e, max_age_secs, now)),
        forall|k: Seq<char>| #[trigger] map_of(retained(e, max_age_secs, now)).contains_key(k)
            <==> (map_of(e).contains_key(k) && !is_expired(map_of(e)[k], max_age_secs, now)),
        forall|k: Seq<char>| #[trigger] map_of(retained(e, max_age_secs, now)).contains_key(k)
            ==> map_of(retained(e, max_age_secs, now))[k] == map_of(e)[k],
    decreases e.len(),
{
    if e.len() > 0 {
        let e2 = e.drop_last();
        let x = e.last();
        assert(distinct_keys(e2));
        lemma_retained(e2, max_age_secs, now);
        lemma_map_of_contains(e2, x.0@);
        assert forall|j: int| 0 <= j < e2.len() implies e2[j].0@ != x.0@ by {
            assert(e[j] == e2[j]);
        }
        assert(!map_of(e2).contains_key(x.0@));
        let ret2 = retained(e2, max_age_secs, now);
        assert forall|j: int| 0 <= j < ret2.len() implies ret2[j].0@ != x.0@ by {
            lemma_map_of_contains(ret2, ret2[j].0@);
            assert(map_of(ret2).contains_key(ret2[j].0@));
        }
        if is_expired(x.1, max_age_secs, now) {
            assert(retained(e, max_age_secs, now) == ret2);
        } else {
            let ret = retained(e, max_age_secs, now);
            assert(ret == ret2.push(x));
            assert(ret.drop_last() =~= ret2);
            assert(ret.last() == x);
            assert(map_of(ret) == map_of(ret2).insert(x.0@, x.1));
            assert(distinct_keys(ret));
        }
    }
}

/// The store contents after a linearized sequence of put operations, each
/// writing the given stamped record under the given id.
pub open spec fn apply_puts(
    m: Map<Seq<char>, GameTurn>,
    ops: Seq<(Seq<char>, GameTurn)>,
) -> Map<Seq<char>, GameTurn>
    decreases ops.len(),
{
    if ops.len() == 0 {
        m
    } else {
        apply_puts(m, ops.drop_last()).insert(ops.last().0, ops.last().1)
    }
}

/// Law: concurrent put operations on pairwise-distinct ids, linearized by the
/// store in any order as `ops`, leave contents holding exactly the record
/// each put wrote — no lost updates — and holding a key only for an id that
/// was written or was already present — no phantom ids; ids not written keep
/// their old record. A subsequent `snapshot` shows exactly these contents.
pub proof fn lemma_puts_distinct_ids(m: Map<Seq<char>, GameTurn>, ops: Seq<(Seq<char>, GameTurn)>)
    requires
        forall|i: int, j: int| 0 <= i < j < ops.len() ==> ops[i].0 != ops[j].0,
    ensures
        forall|i: int|
            0 <= i < ops.len() ==> apply_puts(m, ops).contains_key(#[trigger] ops[i].0)
                && apply_puts(m, ops)[ops[i].0] == ops[i].1,
        forall|k: Seq<char>| #[trigger] apply_puts(m, ops).contains_key(k) <==> (m.contains_key(k)
            || exists|i: int| 0 <= i < ops.len() && #[trigger] ops[i].0 == k),
        forall|k: Seq<char>|
            m.contains_key(k) && (forall|i: int| 0 <= i < ops.len() ==> #[trigger] ops[i].0 != k)
                ==> #[trigger] apply_puts(m, ops)[k] == m[k],
    decreases ops.len(),
{
    if ops.len() > 0 {
        let ops2 = ops.drop_last();
        let x = ops.last();
        assert forall|i: int, j: int| 0 <= i < j < ops2.len() implies ops2[i].0 != ops2[j].0 by {
            assert(ops2[i] == ops[i]);
            assert(ops2[j] == ops[j]);
        }
        lemma_puts_distinct_ids(m, ops2);
        assert(apply_puts(m, ops) == apply_puts(m, ops2).insert(x.0, x.1));
        assert forall|i: int|
            0 <= i < ops.len() implies apply_puts(m, ops).contains_key(#[trigger] ops[i].0)
            && apply_puts(m, ops)[ops[i].0] == ops[i].1 by {
            if i < ops.len() - 1 {
                assert(ops2[i] == ops[i]);
                assert(ops[i].0 != x.0);
            }
        }
        assert forall|k: Seq<char>| #[trigger]
            apply_puts(m, ops).contains_key(k) implies (m.contains_key(k) || exists|i: int|
            0 <= i < ops.len() && #[trigger] ops[i].0 == k) by {
            if k == x.0 {
                assert(ops[ops.len() - 1].0 == k);
            } else {
                assert(apply_puts(m, ops2).contains_key(k));
                if !m.contains_key(k) {
                    let i = choose|i: int| 0 <= i < ops2.len() && ops2[i].0 == k;
                    assert(ops[i].0 == k);
                }
            }
        }
        assert forall|k: Seq<char>|
            (m.contains_key(k) || exists|i: int|
                0 <= i < ops.len() && #[trigger] ops[i].0 == k) implies #[trigger] apply_puts(
            m,
            ops,
        ).contains_key(k) by {
            if k != x.0 {
                if !m.contains_key(k) {
                    let i = choose|i: int| 0 <= i < ops.len() && ops[i].0 == k;
                    assert(i < ops.len() - 1);
                    assert(ops2[i].0 == k);
                }
            }
        }
        assert forall|k: Seq<char>|
            m.contains_key(k) && (forall|i: int|
                0 <= i < ops.len() ==> #[trigger] ops[i].0 != k) implies #[trigger] apply_puts(
            m,
            ops,
        )[k] == m[k] by {
            assert(ops[ops.len() - 1].0 != k);
            assert(forall|i: int| 0 <= i < ops2.len() ==> #[trigger] ops2[i].0 != k);
        }
    }
}

} // verus!
