//! The bounded statistics table: query identifier to aggregate record.
//!
//! The table has room for `CAPACITY` identifiers and never grows. A call for
//! an identifier it already holds counts one more execution and keeps the
//! text of the first call. A call for a new identifier stores a fresh
//! record; when the table is full such a call changes nothing and reports
//! nothing, so that collecting statistics can never fail a statement.
//!
//! The table does no locking. It holds no pointers, so it can live in memory
//! shared between processes; whoever shares it guards each single call with
//! a lock of its own.

use vstd::prelude::*;
use heapless::index_map::FnvIndexMap;
use heapless::index_map::IndexMap;
use crate::record::{QueryStats, SmQuery, SNIPPET_LEN, snippet_of, bump, saturated};

verus! {

/// Number of distinct query identifiers the table can hold.
pub const CAPACITY: usize = 1024;

/// `heapless::index_map::IndexMap`, taken as opaque: what a map holds is
/// known only through `entries_of`.
#[verifier::external_type_specification]
#[verifier::external_body]
#[verifier::reject_recursive_types(K)]
#[verifier::reject_recursive_types(V)]
#[verifier::reject_recursive_types(S)]
pub struct ExIndexMap<K, V, S, const N: usize>(IndexMap<K, V, S, N>);

/// `hash32::BuildHasherDefault`, the hasher factory in the type of an
/// `FnvIndexMap`. Opaque, and never touched here.
#[verifier::external_type_specification]
#[verifier::external_body]
#[verifier::reject_recursive_types(H)]
pub struct ExBuildHasherDefault<H>(hash32::BuildHasherDefault<H>);

/// `hash32::FnvHasher`, the hasher in the type of an `FnvIndexMap`. Opaque,
/// and never touched here.
#[verifier::external_type_specification]
#[verifier::external_body]
pub struct ExFnvHasher(hash32::FnvHasher);

/// The records that a map holds, by key. Trusted: it stands for the entries
/// of `heapless::index_map::IndexMap`, which holds each key at most once.
pub uninterp spec fn entries_of(m: FnvIndexMap<i32, SmQuery, 1024>) -> Map<i32, SmQuery>;

/// Trusted: `FnvIndexMap::new` makes a map without entries.
#[verifier::external_body]
fn map_new() -> (fresh: FnvIndexMap<i32, SmQuery, 1024>)
    ensures
        entries_of(fresh) == (Map::<i32, SmQuery>::empty()),
{
    FnvIndexMap::new()
}

/// Trusted: `IndexMap::len` is the number of keys held.
#[verifier::external_body]
fn map_len(m: &FnvIndexMap<i32, SmQuery, 1024>) -> (n: usize)
    ensures
        n == entries_of(*m).len(),
{
    m.len()
}

/// Trusted: `IndexMap::get` finds the value stored under a key, and nothing
/// under a key that the map does not hold. The value is handed out as a copy.
#[verifier::external_body]
fn map_get(m: &FnvIndexMap<i32, SmQuery, 1024>, id: i32) -> (found: Option<SmQuery>)
    ensures
        found == if entries_of(*m).contains_key(id) {
            Some(entries_of(*m)[id])
        } else {
            None
        },
{
    m.get(&id).copied()
}

/// Trusted: `IndexMap::insert`. Under a key that the map holds it replaces
/// the value and returns the old one. A new key is added while fewer than
/// 1024 keys are held; in a full map a new key is refused, the pair comes
/// back and the map stays as it was. With `i32` keys and plain records
/// nothing in it can panic.
#[verifier::external_body]
fn map_insert(m: &mut FnvIndexMap<i32, SmQuery, 1024>, id: i32, rec: SmQuery) -> (r: Result<
    Option<SmQuery>,
    (i32, SmQuery),
>)
    ensures
        entries_of(*final(m)) == if entries_of(*old(m)).contains_key(id) || entries_of(
            *old(m),
        ).len() < 1024 {
            entries_of(*old(m)).insert(id, rec)
        } else {
            entries_of(*old(m))
        },
        match r {
            Ok(replaced) => {
                &&& entries_of(*old(m)).contains_key(id) || entries_of(*old(m)).len() < 1024
                &&& replaced == if entries_of(*old(m)).contains_key(id) {
                    Some(entries_of(*old(m))[id])
                } else {
                    None
                }
            },
            Err(refused) => {
                &&& !entries_of(*old(m)).contains_key(id)
                &&& entries_of(*old(m)).len() >= 1024
                &&& refused == (id, rec)
            },
        },
    no_unwind
{
    m.insert(id, rec)
}

/// Trusted: `IndexMap::clear` removes every entry. The records have nothing
/// to drop, so nothing in it can panic.
#[verifier::external_body]
fn map_clear(m: &mut FnvIndexMap<i32, SmQuery, 1024>)
    ensures
        entries_of(*final(m)) == (Map::<i32, SmQuery>::empty()),
    no_unwind
{
    m.clear()
}

/// The table after one call for `id` with `text`.
pub open spec fn upserted(m: Map<i32, QueryStats>, id: i32, text: Seq<u8>) -> Map<i32, QueryStats> {
    if m.contains_key(id) {
        m.insert(id, QueryStats { text: m[id].text, calls: bump(m[id].calls) })
    } else if m.len() < CAPACITY {
        m.insert(id, QueryStats { text: snippet_of(text), calls: 1 })
    } else {
        m
    }
}

/// The table after one call for `id` with each of `texts`, in order.
pub open spec fn upserted_all(m: Map<i32, QueryStats>, id: i32, texts: Seq<Seq<u8>>) -> Map<
    i32,
    QueryStats,
>
    decreases texts.len(),
{
    if texts.len() == 0 {
        m
    } else {
        upserted(upserted_all(m, id, texts.drop_last()), id, texts.last())
    }
}

/// The table after a run of calls for any identifiers, in order.
pub open spec fn replayed(m: Map<i32, QueryStats>, calls: Seq<(i32, Seq<u8>)>) -> Map<
    i32,
    QueryStats,
>
    decreases calls.len(),
{
    if calls.len() == 0 {
        m
    } else {
        upserted(replayed(m, calls.drop_last()), calls.last().0, calls.last().1)
    }
}

/// How many calls of a run are for `id`.
pub open spec fn calls_for(calls: Seq<(i32, Seq<u8>)>, id: i32) -> nat
    decreases calls.len(),
{
    if calls.len() == 0 {
        0
    } else if calls.last().0 == id {
        calls_for(calls.drop_last(), id) + 1
    } else {
        calls_for(calls.drop_last(), id)
    }
}

/// A table never holds more than `CAPACITY` identifiers: one more call keeps
/// a table within its bound, and adds at most one identifier.
pub proof fn lemma_upsert_bounded(m: Map<i32, QueryStats>, id: i32, text: Seq<u8>)
    requires
        m.dom().finite(),
        m.len() <= CAPACITY,
    ensures
        upserted(m, id, text).dom().finite(),
        upserted(m, id, text).len() <= CAPACITY,
        m.len() <= upserted(m, id, text).len() <= m.len() + 1,
{
}

/// After the first call for an identifier that the table does not hold yet
/// and has room for, the table holds it with a count of one and the text of
/// that call, cut to the buffer.
pub proof fn lemma_first_upsert(m: Map<i32, QueryStats>, id: i32, text: Seq<u8>)
    requires
        m.dom().finite(),
        !m.contains_key(id),
        m.len() < CAPACITY,
    ensures
        upserted(m, id, text).contains_key(id),
        upserted(m, id, text)[id] == (QueryStats { text: snippet_of(text), calls: 1 }),
        upserted(m, id, text).remove(id) == m,
{
    assert(upserted(m, id, text).remove(id) =~= m);
}

/// After any number of calls for one identifier its counter shows the
/// number of calls, up to saturation, and its text is that of the first
/// call, whatever text the later calls brought. Where the table held the
/// identifier before, the calls are counted on top of what it had and the
/// text it had stays. No other identifier is touched.
pub proof fn lemma_repeated_upsert(m: Map<i32, QueryStats>, id: i32, texts: Seq<Seq<u8>>)
    requires
        m.dom().finite(),
        texts.len() > 0,
        m.contains_key(id) || m.len() < CAPACITY,
        m.contains_key(id) ==> m[id].calls <= usize::MAX,
    ensures
        upserted_all(m, id, texts).contains_key(id),
        upserted_all(m, id, texts).remove(id) == m.remove(id),
        !m.contains_key(id) ==> upserted_all(m, id, texts)[id] == (QueryStats {
            text: snippet_of(texts[0]),
            calls: saturated(texts.len()),
        }),
        m.contains_key(id) ==> upserted_all(m, id, texts)[id] == (QueryStats {
            text: m[id].text,
            calls: saturated(m[id].calls + texts.len()),
        }),
    decreases texts.len(),
{
    let earlier = texts.drop_last();
    let before = upserted_all(m, id, earlier);
    let after = upserted_all(m, id, texts);
    assert(after == upserted(before, id, texts.last()));
    if earlier.len() == 0 {
        assert(before == m);
        assert(after.remove(id) =~= m.remove(id));
    } else {
        lemma_repeated_upsert(m, id, earlier);
        assert(earlier[0] == texts[0]);
        assert(after.remove(id) =~= before.remove(id));
    }
}

/// Calls for other identifiers do not disturb a count. Through any run of
/// calls an identifier that the table holds keeps its text, and its counter
/// rises by the number of calls for it, up to saturation, however the calls
/// for other identifiers fall in between and whether or not the table
/// fills up.
pub proof fn lemma_replay_counts(m: Map<i32, QueryStats>, calls: Seq<(i32, Seq<u8>)>, id: i32)
    requires
        m.contains_key(id),
        m[id].calls <= usize::MAX,
    ensures
        replayed(m, calls).contains_key(id),
        replayed(m, calls)[id] == (QueryStats {
            text: m[id].text,
            calls: saturated(m[id].calls + calls_for(calls, id)),
        }),
    decreases calls.len(),
{
    if calls.len() > 0 {
        lemma_replay_counts(m, calls.drop_last(), id);
    }
}

/// What the records of a map stand for.
pub closed spec fn stats_of(entries: Map<i32, SmQuery>) -> Map<i32, QueryStats> {
    Map::new(|id: i32| entries.contains_key(id), |id: i32| entries[id]@)
}

/// Fixed-capacity mapping from query identifier to aggregate record.
pub struct StatisticsTable {
    map: FnvIndexMap<i32, SmQuery, 1024>,
}

impl View for StatisticsTable {
    type V = Map<i32, QueryStats>;

    closed spec fn view(&self) -> Map<i32, QueryStats> {
        stats_of(entries_of(self.map))
    }
}

proof fn lemma_stats_of_empty()
    ensures
        stats_of(Map::<i32, SmQuery>::empty()) == Map::<i32, QueryStats>::empty(),
{
    assert(stats_of(Map::<i32, SmQuery>::empty()) =~= Map::<i32, QueryStats>::empty());
}

proof fn lemma_stats_of_dom(entries: Map<i32, SmQuery>)
    ensures
        stats_of(entries).dom() == entries.dom(),
{
    assert(stats_of(entries).dom() =~= entries.dom());
}

proof fn lemma_stats_of_insert(entries: Map<i32, SmQuery>, id: i32, rec: SmQuery)
    ensures
        stats_of(entries.insert(id, rec)) == stats_of(entries).insert(id, rec@),
{
    assert(stats_of(entries.insert(id, rec)) =~= stats_of(entries).insert(id, rec@));
}

impl Default for StatisticsTable {
    /// An empty table.
    fn default() -> (t: Self)
        ensures
            t@ == Map::<i32, QueryStats>::empty(),
            t@.dom().finite(),
    {
        StatisticsTable::new()
    }
}

impl StatisticsTable {
    #[verifier::type_invariant]
    spec fn bounded(self) -> bool {
        &&& entries_of(self.map).dom().finite()
        &&& entries_of(self.map).len() <= CAPACITY
    }

    /// An empty table.
    pub fn new() -> (t: Self)
        ensures
            t@ == Map::<i32, QueryStats>::empty(),
            t@.dom().finite(),
    {
        proof {
            lemma_stats_of_empty();
        }
        Self { map: map_new() }
    }

    /// Counts one execution of the query `id`, whose text is `text`.
    ///
    /// A known `id` gets its counter raised by one, up to `usize::MAX`, and
    /// keeps its text. A new `id` gets a record with a count of one and the
    /// first `SNIPPET_LEN` bytes of `text`, unless the table is full: then
    /// nothing changes.
    pub fn upsert(&mut self, id: i32, text: &[u8])
        ensures
            final(self)@ == upserted(old(self)@, id, text@),
            final(self)@.dom().finite(),
            final(self)@.len() <= CAPACITY,
    {
        proof {
            use_type_invariant(&*self);
            lemma_stats_of_dom(entries_of(self.map));
        }
        let ghost before = entries_of(self.map);
        let rec = match map_get(&self.map, id) {
            Some(known) => {
                let mut known = known;
                known.record_call();
                known
            },
            None => SmQuery::new(text, 1),
        };
        let _ = map_insert(&mut self.map, id, rec);
        proof {
            lemma_stats_of_insert(before, id, rec);
            lemma_stats_of_dom(entries_of(self.map));
        }
    }

    /// A copy of the record kept for `id`, if there is one.
    pub fn lookup(&self, id: i32) -> (found: Option<SmQuery>)
        ensures
            match found {
                Some(rec) => self@.contains_key(id) && rec@ == self@[id],
                None => !self@.contains_key(id),
            },
    {
        map_get(&self.map, id)
    }

    /// Forgets every record.
    pub fn reset(&mut self)
        ensures
            final(self)@ == Map::<i32, QueryStats>::empty(),
            final(self)@.dom().finite(),
    {
        proof {
            lemma_stats_of_empty();
        }
        map_clear(&mut self.map);
    }

    /// Every record of the table has a full buffer and a counter that fits
    /// the machine word.
    pub proof fn lemma_records_valid(&self, id: i32)
        requires
            self@.contains_key(id),
        ensures
            self@[id].text.len() == SNIPPET_LEN,
            self@[id].calls <= usize::MAX,
    {
        entries_of(self.map)[id].lemma_view_valid();
    }

    /// The number of identifiers held. It never exceeds `CAPACITY`.
    pub fn len(&self) -> (n: usize)
        ensures
            n == self@.len(),
            n <= CAPACITY,
            self@.dom().finite(),
    {
        proof {
            use_type_invariant(self);
            lemma_stats_of_dom(entries_of(self.map));
        }
        map_len(&self.map)
    }
}

} // verus!
