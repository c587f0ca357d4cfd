//! The event store: `get`/`put` over stored attribute mappings, with
//! single-writer-wins optimistic concurrency.
//!
//! A record is stored under the key derived from its public token. A write of
//! version 0 is guarded by the absence of any stored item; a write of version
//! `n > 0` succeeds only if the stored version field equals `n - 1`. A guard
//! mismatch is rejected as a concurrency conflict before any mutation is
//! observed; conflicts never move the state. The in-memory store here
//! implements the protocol over plain data; a transport-bound adapter
//! implements the same protocol against a remote document store.

use vstd::prelude::*;
use vstd::string::*;

use crate::attr::{entries_view, map_get, spec_lookup, AttrV, AttributeMap, AttributeValue};
use crate::codec::{
    decoded_entry, event_key, event_key_of, lemma_entry_round_trip, res_view,
};
use crate::error::{Error, ErrorV};
use crate::num::{dec_of_nat, u64_to_dec};
use crate::types::{EventEntry, EventEntryV};

verus! {

/// Construction-time store configuration: the table name, and whether to
/// verify the table's existence (creating it if absent) on startup.
#[derive(Clone, Debug, PartialEq, Eq)]
pub struct StoreOptions {
    pub table: String,
    pub check_table_exists: bool,
}

/// The model of a store's contents: stored attribute mappings by storage key,
/// earliest binding first.
pub type StoreModel = Seq<(Seq<char>, Seq<(Seq<char>, AttrV)>)>;

/// The stored item under a storage key, if any: the first binding wins.
pub open spec fn store_lookup(db: StoreModel, skey: Seq<char>) -> Option<Seq<(Seq<char>, AttrV)>>
    decreases db.len(),
{
    if db.len() == 0 {
        None
    } else if db[0].0 == skey {
        Some(db[0].1)
    } else {
        store_lookup(db.drop_first(), skey)
    }
}

/// Replace the first item stored under `skey`.
pub open spec fn store_replace(
    db: StoreModel,
    skey: Seq<char>,
    item: Seq<(Seq<char>, AttrV)>,
) -> StoreModel
    decreases db.len(),
{
    if db.len() == 0 {
        db
    } else if db[0].0 == skey {
        seq![(skey, item)] + db.drop_first()
    } else {
        seq![db[0]] + store_replace(db.drop_first(), skey, item)
    }
}

/// What `get` returns on a store: the decoded stored item, or not-found.
pub open spec fn spec_get(db: StoreModel, key: Seq<char>) -> Result<EventEntryV, ErrorV> {
    match store_lookup(db, event_key_of(key)) {
        None => Err(ErrorV::NotFound),
        Some(item) => decoded_entry(item),
    }
}

/// The version text stored under a storage key, when the item holds a number
/// there: what the write guard compares against.
pub open spec fn stored_version_text(db: StoreModel, skey: Seq<char>) -> Option<Seq<char>> {
    match store_lookup(db, skey) {
        Some(item) => match spec_lookup(item, "v"@) {
            Some(v) => match v {
                AttrV::N(s) => Some(s),
                _ => None,
            },
            _ => None,
        },
        None => None,
    }
}

/// What `put` does to a store: the result and the new contents. A version-0
/// write requires the key to be absent; a later write requires the stored
/// version text to equal the written version minus one. A failed guard is a
/// concurrency conflict and changes nothing.
pub open spec fn spec_put(db: StoreModel, e: EventEntryV) -> (Result<(), ErrorV>, StoreModel) {
    let skey = event_key_of(e.event.tokens.public_token);
    if e.version == 0 {
        if store_lookup(db, skey) is Some {
            (Err(ErrorV::Concurrency), db)
        } else {
            (Ok(()), db.push((skey, crate::codec::encoded_entry(e))))
        }
    } else {
        if stored_version_text(db, skey) == Some(dec_of_nat((e.version - 1) as nat)) {
            (Ok(()), store_replace(db, skey, crate::codec::encoded_entry(e)))
        } else {
            (Err(ErrorV::Concurrency), db)
        }
    }
}

/// The mathematical result of a unit-valued store operation.
pub open spec fn res_unit_view(r: Result<(), Error>) -> Result<(), ErrorV> {
    match r {
        Ok(u) => Ok(u),
        Err(e) => Err(e@),
    }
}

/// The store capability: `get` and `put` over a model of the stored
/// contents, so the versioning and codec logic can be exercised against an
/// in-memory store implementing the same protocol as a remote one.
pub trait EventsDB {
    /// The model of the stored contents.
    spec fn db(&self) -> StoreModel;

    /// Fetch the current snapshot for `key`.
    fn get(&self, key: &str) -> (r: Result<EventEntry, Error>)
        ensures
            res_view(r) == spec_get(self.db(), key@),
    ;

    /// Persist `event` under its derived key, guarded by its version.
    fn put(&mut self, event: EventEntry) -> (r: Result<(), Error>)
        ensures
            res_unit_view(r) == spec_put(old(self).db(), event@).0,
            final(self).db() == spec_put(old(self).db(), event@).1,
    ;
}

/// An in-memory event store: the same capability and write protocol as the
/// transport-bound adapter, over stored attribute mappings held in memory.
pub struct MemoryEventsDB {
    items: Vec<(String, AttributeMap)>,
}

impl View for MemoryEventsDB {
    type V = StoreModel;

    closed spec fn view(&self) -> StoreModel {
        Seq::new(
            self.items@.len(),
            |i: int| (self.items@[i].0@, entries_view(self.items@[i].1@)),
        )
    }
}

impl MemoryEventsDB {
    /// A fresh store holding nothing.
    pub fn new() -> (r: Self)
        ensures
            r@ == Seq::<(Seq<char>, Seq<(Seq<char>, AttrV)>)>::empty(),
    {
        let r = MemoryEventsDB { items: Vec::new() };
        proof {
            assert(r@ =~= Seq::<(Seq<char>, Seq<(Seq<char>, AttrV)>)>::empty());
        }
        r
    }

    /// The position of the first item stored under `skey`, if any.
    fn find_item(&self, skey: &String) -> (r: Option<usize>)
        ensures
            match r {
                Some(j) => 0 <= j < self@.len() && self@[j as int].0 == skey@ && store_lookup(
                    self@,
                    skey@,
                ) == Some(self@[j as int].1) && (forall|i: int|
                    0 <= i < j ==> (#[trigger] self@[i]).0 != skey@),
                None => store_lookup(self@, skey@) is None,
            },
    {
        let ghost db = self@;
        proof {
            assert(db.skip(0) =~= db);
        }
        let mut i: usize = 0;
        while i < self.items.len()
            invariant
                0 <= i <= self.items@.len(),
                db == self@,
                db.len() == self.items@.len(),
                store_lookup(db, skey@) == store_lookup(db.skip(i as int), skey@),
                forall|k: int| 0 <= k < i ==> (#[trigger] db[k]).0 != skey@,
            decreases self.items@.len() - i,
        {
            proof {
                assert(db.skip(i as int).len() == db.len() - i);
                assert(db.skip(i as int)[0] == db[i as int]);
                assert(db[i as int] == (self.items@[i as int].0@, entries_view(
                    self.items@[i as int].1@,
                )));
            }
            if self.items[i].0 == *skey {
                return Some(i);
            }
            proof {
                assert(db.skip(i as int).drop_first() =~= db.skip(i as int + 1));
            }
            i = i + 1;
        }
        proof {
            assert(db.skip(i as int) =~= Seq::<(Seq<char>, Seq<(Seq<char>, AttrV)>)>::empty());
        }
        None
    }

    /// Fetch the current snapshot for `key`. Yields the not-found error when
    /// no item is stored under the derived key, and a malformed-field error
    /// when the stored attributes fail to parse.
    pub fn get(&self, key: &str) -> (r: Result<EventEntry, Error>)
        ensures
            res_view(r) == spec_get(self@, key@),
    {
        let skey = event_key(key);
        match self.find_item(&skey) {
            None => Err(Error::NotFound),
            Some(j) => EventEntry::try_from_attributes(&self.items[j].1),
        }
    }

    /// Persist `event` under its derived key, guarded by its version: the
    /// sole way the stored state advances. A guard mismatch yields the
    /// concurrency error and leaves the store unchanged.
    pub fn put(&mut self, event: EventEntry) -> (r: Result<(), Error>)
        ensures
            res_unit_view(r) == spec_put(old(self)@, event@).0,
            final(self)@ == spec_put(old(self)@, event@).1,
    {
        let ghost e0 = event;
        let ghost db = self@;
        let skey = event_key(event.event.tokens.public_token.as_str());
        let jopt = self.find_item(&skey);
        if event.version == 0 {
            match jopt {
                Some(_) => Err(Error::Concurrency),
                None => {
                    let m = event.to_attributes();
                    self.items.push((skey, m));
                    proof {
                        assert(self@ =~= db.push(
                            (event_key_of(e0@.event.tokens.public_token), crate::codec::encoded_entry(e0@)),
                        ));
                    }
                    Ok(())
                },
            }
        } else {
            match jopt {
                Some(j) => {
                    let expected = u64_to_dec((event.version - 1) as u64);
                    let guard_ok = match map_get(&self.items[j].1, &String::from_str("v")) {
                        Some(found) => match found {
                            AttributeValue::N(s) => *s == expected,
                            _ => false,
                        },
                        _ => false,
                    };
                    if guard_ok {
                        let m = event.to_attributes();
                        self.items.set(j, (skey, m));
                        proof {
                            lemma_store_replace_at(
                                db,
                                event_key_of(e0@.event.tokens.public_token),
                                crate::codec::encoded_entry(e0@),
                                j as int,
                            );
                            assert(self@ =~= db.update(
                                j as int,
                                (
                                    event_key_of(e0@.event.tokens.public_token),
                                    crate::codec::encoded_entry(e0@),
                                ),
                            ));
                        }
                        Ok(())
                    } else {
                        Err(Error::Concurrency)
                    }
                },
                None => Err(Error::Concurrency),
            }
        }
    }

    /// Store a raw attribute mapping under an explicit storage key, replacing
    /// any previous item: models data written by another party, however
    /// malformed.
    pub fn insert_raw(&mut self, skey: String, item: AttributeMap)
        ensures
            final(self)@ == (if store_lookup(old(self)@, skey@) is Some {
                store_replace(old(self)@, skey@, entries_view(item@))
            } else {
                old(self)@.push((skey@, entries_view(item@)))
            }),
    {
        let ghost db = self@;
        let jopt = self.find_item(&skey);
        match jopt {
            Some(j) => {
                let ghost sk = skey@;
                let ghost it = entries_view(item@);
                self.items.set(j, (skey, item));
                proof {
                    lemma_store_replace_at(db, sk, it, j as int);
                    assert(self@ =~= db.update(j as int, (sk, it)));
                }
            },
            None => {
                let ghost sk = skey@;
                let ghost it = entries_view(item@);
                self.items.push((skey, item));
                proof {
                    assert(self@ =~= db.push((sk, it)));
                }
            },
        }
    }
}

impl EventsDB for MemoryEventsDB {
    open spec fn db(&self) -> StoreModel {
        self@
    }

    fn get(&self, key: &str) -> (r: Result<EventEntry, Error>) {
        MemoryEventsDB::get(self, key)
    }

    fn put(&mut self, event: EventEntry) -> (r: Result<(), Error>) {
        MemoryEventsDB::put(self, event)
    }
}

/// Replacing the first match is updating at the position of the first match.
pub proof fn lemma_store_replace_at(
    db: StoreModel,
    skey: Seq<char>,
    item: Seq<(Seq<char>, AttrV)>,
    j: int,
)
    requires
        0 <= j < db.len(),
        db[j].0 == skey,
        forall|i: int| 0 <= i < j ==> (#[trigger] db[i]).0 != skey,
    ensures
        store_replace(db, skey, item) =~= db.update(j, (skey, item)),
    decreases j,
{
    if j == 0 {
        assert(store_replace(db, skey, item) =~= seq![(skey, item)] + db.drop_first());
        assert(seq![(skey, item)] + db.drop_first() =~= db.update(0, (skey, item)));
    } else {
        assert(db[0].0 != skey);
        assert forall|i: int|
            0 <= i < j - 1 implies (#[trigger] db.drop_first()[i]).0 != skey by {
            assert(db.drop_first()[i] == db[i + 1]);
        }
        assert(db.drop_first()[j - 1] == db[j]);
        lemma_store_replace_at(db.drop_first(), skey, item, j - 1);
        assert(seq![db[0]] + db.drop_first().update(j - 1, (skey, item)) =~= db.update(
            j,
            (skey, item),
        ));
    }
}

/// Looking up the key of a pushed item on a store that lacked it finds the
/// pushed item; other keys are unaffected.
pub proof fn lemma_store_lookup_push(
    db: StoreModel,
    skey: Seq<char>,
    item: Seq<(Seq<char>, AttrV)>,
    probe: Seq<char>,
)
    ensures
        store_lookup(db.push((skey, item)), probe) == (if store_lookup(db, probe) is Some {
            store_lookup(db, probe)
        } else if probe == skey {
            Some(item)
        } else {
            None
        }),
    decreases db.len(),
{
    if db.len() == 0 {
        assert(db.push((skey, item)).drop_first() =~= Seq::<
            (Seq<char>, Seq<(Seq<char>, AttrV)>),
        >::empty());
    } else {
        assert(db.push((skey, item)).drop_first() =~= db.drop_first().push((skey, item)));
        lemma_store_lookup_push(db.drop_first(), skey, item, probe);
    }
}

/// Looking a key up after replacing its first item finds the replacement;
/// other keys are unaffected.
pub proof fn lemma_store_lookup_replace(
    db: StoreModel,
    skey: Seq<char>,
    item: Seq<(Seq<char>, AttrV)>,
    probe: Seq<char>,
)
    ensures
        store_lookup(store_replace(db, skey, item), probe) == (if probe == skey {
            if store_lookup(db, skey) is Some {
                Some(item)
            } else {
                None
            }
        } else {
            store_lookup(db, probe)
        }),
    decreases db.len(),
{
    if db.len() > 0 {
        if db[0].0 == skey {
            let r = seq![(skey, item)] + db.drop_first();
            assert(r[0] == (skey, item));
            assert(r.drop_first() =~= db.drop_first());
        } else {
            let r = seq![db[0]] + store_replace(db.drop_first(), skey, item);
            assert(r[0] == db[0]);
            assert(r.drop_first() =~= store_replace(db.drop_first(), skey, item));
            lemma_store_lookup_replace(db.drop_first(), skey, item, probe);
        }
    }
}

/// Whether the bootstrap must create the table: creation was requested and
/// the listed table names do not contain the configured one.
pub fn needs_table_creation(options: &StoreOptions, names: &Vec<String>) -> (r: bool)
    ensures
        r == (options.check_table_exists && !(exists|i: int|
            0 <= i < names@.len() && (#[trigger] names@[i])@ == options.table@)),
{
    if !options.check_table_exists {
        return false;
    }
    let mut i: usize = 0;
    while i < names.len()
        invariant
            0 <= i <= names@.len(),
            forall|j: int| 0 <= j < i ==> (#[trigger] names@[j])@ != options.table@,
        decreases names@.len() - i,
    {
        if names[i] == options.table {
            return false;
        }
        i = i + 1;
    }
    true
}

// ---------------------------------------------------------------------------
// The store's laws.
// ---------------------------------------------------------------------------

/// Not-found: `get` on a key with no stored item yields the not-found error.
pub proof fn lemma_get_absent(db: StoreModel, key: Seq<char>)
    requires
        store_lookup(db, event_key_of(key)) is None,
    ensures
        spec_get(db, key) == Err::<EventEntryV, ErrorV>(ErrorV::NotFound),
{
}

/// Version monotonicity, accepted writes: a successful `put` stores exactly
/// the written record — reading the key back yields it — and its stored
/// version text is the record's version; for a non-initial write, the
/// previously stored version text was exactly one less.
pub proof fn lemma_put_version_monotonic(db: StoreModel, e: EventEntryV)
    requires
        e.wf(),
        spec_put(db, e).0 is Ok,
    ensures
        spec_get(spec_put(db, e).1, e.event.tokens.public_token) == Ok::<EventEntryV, ErrorV>(e),
        stored_version_text(spec_put(db, e).1, event_key_of(e.event.tokens.public_token)) == Some(
            dec_of_nat(e.version as nat),
        ),
        e.version > 0 ==> stored_version_text(db, event_key_of(e.event.tokens.public_token))
            == Some(dec_of_nat((e.version - 1) as nat)),
{
    let skey = event_key_of(e.event.tokens.public_token);
    let enc = crate::codec::encoded_entry(e);
    let db2 = spec_put(db, e).1;
    if e.version == 0 {
        lemma_store_lookup_push(db, skey, enc, skey);
    } else {
        lemma_store_lookup_replace(db, skey, enc, skey);
    }
    assert(store_lookup(db2, skey) == Some(enc));
    lemma_entry_round_trip(e);
    crate::codec::lemma_encoded_version(e);
}

/// Version monotonicity, stale writes: a `put` presenting a previous version
/// other than the stored one fails with the concurrency error and leaves the
/// store unchanged.
pub proof fn lemma_put_stale_version_conflict(db: StoreModel, e: EventEntryV)
    requires
        e.version > 0,
        stored_version_text(db, event_key_of(e.event.tokens.public_token)) != Some(
            dec_of_nat((e.version - 1) as nat),
        ),
    ensures
        spec_put(db, e).0 == Err::<(), ErrorV>(ErrorV::Concurrency),
        spec_put(db, e).1 == db,
{
}

/// First writes are guarded too: a version-0 `put` on a key that already
/// holds an item fails with the concurrency error and leaves the store
/// unchanged.
pub proof fn lemma_initial_put_guarded(db: StoreModel, e: EventEntryV)
    requires
        e.version == 0,
        store_lookup(db, event_key_of(e.event.tokens.public_token)) is Some,
    ensures
        spec_put(db, e).0 == Err::<(), ErrorV>(ErrorV::Concurrency),
        spec_put(db, e).1 == db,
{
}

} // verus!
