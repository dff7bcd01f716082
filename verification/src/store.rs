//! The in-memory keyspace: binary-safe keys mapping to strings with an
//! optional expiry instant, or to append-only streams.
//!
//! The store is modelled as a map from key bytes to entry models; every
//! operation's contract says exactly how the map and the reply relate to
//! the command. Expiry is lazy: an expired string reads as absent on any
//! access, and is removed when a `GET` or `TYPE` touches it.

use vstd::prelude::*;

use crate::command::{RedisStoreCommand, bytes_eq, clone_bytes, views_of_pairs};
use crate::keywords::{lit_star, lit_string, lit_stream, lit_none, lit_ok, spec_lit_star,
    spec_lit_string, spec_lit_stream, spec_lit_none, spec_lit_ok};
use crate::resp::{RESPValue, ValueModel, view_value, view_values, lemma_view_values_push};

verus! {

/// Mathematical form of one stored entry.
pub enum EntryModel {
    StringEntry { value: Seq<u8>, expiration: Option<int> },
    StreamEntry { entries: Seq<(Seq<u8>, Seq<(Seq<u8>, Seq<u8>)>)> },
}

#[derive(Debug, PartialEq, Eq)]
pub enum StoreValue {
    String { value: Vec<u8>, expiration: Option<u64> },
    Stream { entries: Vec<(Vec<u8>, Vec<(Vec<u8>, Vec<u8>)>)> },
}

/// The model of a stream's entry list.
pub open spec fn view_stream(entries: Seq<(Vec<u8>, Vec<(Vec<u8>, Vec<u8>)>)>) -> Seq<
    (Seq<u8>, Seq<(Seq<u8>, Seq<u8>)>),
> {
    entries.map_values(|e: (Vec<u8>, Vec<(Vec<u8>, Vec<u8>)>)| (e.0@, views_of_pairs(e.1@)))
}

pub open spec fn view_entry(v: StoreValue) -> EntryModel {
    match v {
        StoreValue::String { value, expiration } => EntryModel::StringEntry {
            value: value@,
            expiration: match expiration {
                Some(t) => Some(t as int),
                None => None,
            },
        },
        StoreValue::Stream { entries } => EntryModel::StreamEntry {
            entries: view_stream(entries@),
        },
    }
}

/// A string entry whose expiry instant has passed.
pub open spec fn is_expired(e: EntryModel, now: int) -> bool {
    e matches EntryModel::StringEntry { expiration: Some(t), .. } && t <= now
}

/// The keyspace an item list stands for; a later item wins over an
/// earlier one with the same key, though the store keeps keys unique.
pub open spec fn store_map(items: Seq<(Vec<u8>, StoreValue)>) -> Map<Seq<u8>, EntryModel>
    decreases items.len(),
{
    if items.len() == 0 {
        Map::empty()
    } else {
        store_map(items.drop_last()).insert(items.last().0@, view_entry(items.last().1))
    }
}

/// Keys appear at most once.
pub open spec fn unique_keys(items: Seq<(Vec<u8>, StoreValue)>) -> bool {
    forall|i: int, j: int|
        0 <= i < j < items.len() ==> (#[trigger] items[i]).0@ != (#[trigger] items[j]).0@
}

pub proof fn lemma_store_map_index(items: Seq<(Vec<u8>, StoreValue)>)
    requires
        unique_keys(items),
    ensures
        forall|k: Seq<u8>|
            store_map(items).contains_key(k) <==> exists|i: int|
                0 <= i < items.len() && (#[trigger] items[i]).0@ == k,
        forall|i: int|
            0 <= i < items.len() ==> store_map(items)[(#[trigger] items[i]).0@] == view_entry(
                items[i].1,
            ),
    decreases items.len(),
{
    if items.len() > 0 {
        lemma_store_map_index(items.drop_last());
        assert forall|k: Seq<u8>| store_map(items).contains_key(k) implies exists|i: int|
            0 <= i < items.len() && (#[trigger] items[i]).0@ == k by {
            if k == items.last().0@ {
                assert(items[items.len() - 1].0@ == k);
            } else {
                let i = choose|i: int|
                    0 <= i < items.drop_last().len() && (#[trigger] items.drop_last()[i]).0@ == k;
                assert(items[i].0@ == k);
            }
        }
        assert forall|i: int| 0 <= i < items.len() implies store_map(items).contains_key((
        #[trigger] items[i]).0@) by {
            if i < items.len() - 1 {
                assert(items.drop_last()[i] == items[i]);
                assert(store_map(items.drop_last()).contains_key(items[i].0@));
            }
        }
        assert forall|i: int| 0 <= i < items.len() implies store_map(items)[(
        #[trigger] items[i]).0@] == view_entry(items[i].1) by {
            if i < items.len() - 1 {
                assert(items.drop_last()[i] == items[i]);
                assert(items[i].0@ != items.last().0@);
            }
        }
    }
}

pub proof fn lemma_store_map_remove(items: Seq<(Vec<u8>, StoreValue)>, i: int)
    requires
        unique_keys(items),
        0 <= i < items.len(),
    ensures
        store_map(items.remove(i)) =~= store_map(items).remove(items[i].0@),
        unique_keys(items.remove(i)),
    decreases items.len(),
{
    lemma_store_map_index(items);
    let removed = items.remove(i);
    assert(unique_keys(removed)) by {
        assert forall|a: int, b: int| 0 <= a < b < removed.len() implies (
        #[trigger] removed[a]).0@ != (#[trigger] removed[b]).0@ by {
            let a0 = if a < i {
                a
            } else {
                a + 1
            };
            let b0 = if b < i {
                b
            } else {
                b + 1
            };
            assert(removed[a] == items[a0]);
            assert(removed[b] == items[b0]);
        }
    }
    lemma_store_map_index(removed);
    assert forall|k: Seq<u8>| #![auto] store_map(removed).contains_key(k) == store_map(
        items,
    ).remove(items[i].0@).contains_key(k) by {
        if k == items[i].0@ {
            if store_map(removed).contains_key(k) {
                let a = choose|a: int| 0 <= a < removed.len() && (#[trigger] removed[a]).0@ == k;
                let a0 = if a < i {
                    a
                } else {
                    a + 1
                };
                assert(removed[a] == items[a0]);
                assert(false);
            }
        } else {
            if store_map(items).contains_key(k) {
                let a = choose|a: int| 0 <= a < items.len() && (#[trigger] items[a]).0@ == k;
                let a1 = if a < i {
                    a
                } else {
                    a - 1
                };
                assert(removed[a1] == items[a]);
            }
            if store_map(removed).contains_key(k) {
                let a = choose|a: int| 0 <= a < removed.len() && (#[trigger] removed[a]).0@ == k;
                let a0 = if a < i {
                    a
                } else {
                    a + 1
                };
                assert(removed[a0 - (if a < i { 0int } else { 1int })] == items[a0]) by {
                    assert(removed[a] == items[a0]);
                }
                assert(items[a0].0@ == k);
            }
        }
    }
    assert forall|k: Seq<u8>|
        store_map(removed).contains_key(k) && store_map(items).remove(
            items[i].0@,
        ).contains_key(k) implies #[trigger] store_map(removed)[k] == store_map(items).remove(
        items[i].0@,
    )[k] by {
        let a = choose|a: int| 0 <= a < removed.len() && (#[trigger] removed[a]).0@ == k;
        let a0 = if a < i {
            a
        } else {
            a + 1
        };
        assert(removed[a] == items[a0]);
        assert(store_map(removed)[k] == view_entry(removed[a].1));
        assert(store_map(items)[k] == view_entry(items[a0].1));
    }
}

/// Why a store command was refused.
#[derive(Debug, PartialEq, Eq, Clone, Copy)]
pub enum StoreError {
    WrongTypeForGet,
    UnknownKeyPattern,
    NotAStream,
}

pub struct RedisStore {
    pub items: Vec<(Vec<u8>, StoreValue)>,
}

impl RedisStore {
    /// The keyspace this store holds.
    pub open spec fn view_map(&self) -> Map<Seq<u8>, EntryModel> {
        store_map(self.items@)
    }

    pub open spec fn wf(&self) -> bool {
        unique_keys(self.items@)
    }

    pub fn new() -> (r: Self)
        ensures
            r.wf(),
            r.view_map() =~= Map::empty(),
    {
        RedisStore { items: Vec::new() }
    }

    /// Index of the item holding `key`, if any.
    fn find(&self, key: &Vec<u8>) -> (r: Option<usize>)
        requires
            self.wf(),
        ensures
            match r {
                Some(i) => i < self.items@.len() && self.items@[i as int].0@ == key@,
                None => forall|i: int|
                    0 <= i < self.items@.len() ==> (#[trigger] self.items@[i]).0@ != key@,
            },
    {
        let mut i: usize = 0;
        while i < self.items.len()
            invariant
                i <= self.items@.len(),
                forall|j: int| 0 <= j < i ==> (#[trigger] self.items@[j]).0@ != key@,
            decreases self.items@.len() - i,
        {
            if bytes_eq(&self.items[i].0, key) {
                return Some(i);
            }
            i = i + 1;
        }
        None
    }
}


/// A fresh copy of a field list.
pub fn clone_pairs(v: &Vec<(Vec<u8>, Vec<u8>)>) -> (r: Vec<(Vec<u8>, Vec<u8>)>)
    ensures
        views_of_pairs(r@) =~= views_of_pairs(v@),
{
    let mut out: Vec<(Vec<u8>, Vec<u8>)> = Vec::new();
    let mut i: usize = 0;
    while i < v.len()
        invariant
            i <= v@.len(),
            views_of_pairs(out@) =~= views_of_pairs(v@).subrange(0, i as int),
        decreases v@.len() - i,
    {
        let a = clone_bytes(&v[i].0);
        let b = clone_bytes(&v[i].1);
        let ghost out_old = out@;
        out.push((a, b));
        i = i + 1;
        proof {
            assert(out@ == out_old.push((a, b)));
            assert(views_of_pairs(out@) =~= views_of_pairs(out_old).push((a@, b@)));
            assert(views_of_pairs(v@).subrange(0, i as int) =~= views_of_pairs(v@).subrange(
                0,
                i - 1,
            ).push((v@[i - 1].0@, v@[i - 1].1@)));
            assert(views_of_pairs(out@) =~= views_of_pairs(v@).subrange(0, i as int));
        }
    }
    proof {
        assert(views_of_pairs(v@).subrange(0, v@.len() as int) =~= views_of_pairs(v@));
    }
    out
}

/// The keys of the entries still alive at `now`, as bulk-string models,
/// in list order; expired strings read as absent and are not listed.
pub open spec fn live_keys_bulks(items: Seq<(Vec<u8>, StoreValue)>, now: int) -> Seq<ValueModel>
    decreases items.len(),
{
    if items.len() == 0 {
        Seq::empty()
    } else {
        live_keys_bulks(items.drop_last(), now) + (if is_expired(
            view_entry(items.last().1),
            now,
        ) {
            Seq::empty()
        } else {
            seq![ValueModel::BulkString(items.last().0@)]
        })
    }
}

/// A stream after adding one entry: an existing id keeps its place and
/// takes the new fields; a fresh id is appended.
pub open spec fn stream_upsert(
    entries: Seq<(Seq<u8>, Seq<(Seq<u8>, Seq<u8>)>)>,
    id: Seq<u8>,
    fields: Seq<(Seq<u8>, Seq<u8>)>,
) -> Seq<(Seq<u8>, Seq<(Seq<u8>, Seq<u8>)>)>
    decreases entries.len(),
{
    if entries.len() == 0 {
        seq![(id, fields)]
    } else if entries[0].0 == id {
        seq![(id, fields)] + entries.subrange(1, entries.len() as int)
    } else {
        seq![entries[0]] + stream_upsert(entries.subrange(1, entries.len() as int), id, fields)
    }
}

pub proof fn lemma_stream_upsert_found(
    es: Seq<(Seq<u8>, Seq<(Seq<u8>, Seq<u8>)>)>,
    id: Seq<u8>,
    fields: Seq<(Seq<u8>, Seq<u8>)>,
    j: int,
)
    requires
        0 <= j < es.len(),
        es[j].0 == id,
        forall|i: int| 0 <= i < j ==> (#[trigger] es[i]).0 != id,
    ensures
        stream_upsert(es, id, fields) =~= es.update(j, (id, fields)),
    decreases es.len(),
{
    if j == 0 {
        assert(seq![(id, fields)] + es.subrange(1, es.len() as int) =~= es.update(0, (id, fields)));
    } else {
        assert(es[0].0 != id);
        let t = es.subrange(1, es.len() as int);
        assert(t[j - 1] == es[j]);
        assert(forall|i: int| 0 <= i < j - 1 ==> (#[trigger] t[i]) == es[i + 1]);
        lemma_stream_upsert_found(t, id, fields, j - 1);
        assert(seq![es[0]] + t.update(j - 1, (id, fields)) =~= es.update(j, (id, fields)));
    }
}

pub proof fn lemma_stream_upsert_absent(
    es: Seq<(Seq<u8>, Seq<(Seq<u8>, Seq<u8>)>)>,
    id: Seq<u8>,
    fields: Seq<(Seq<u8>, Seq<u8>)>,
)
    requires
        forall|i: int| 0 <= i < es.len() ==> (#[trigger] es[i]).0 != id,
    ensures
        stream_upsert(es, id, fields) =~= es.push((id, fields)),
    decreases es.len(),
{
    if es.len() > 0 {
        let t = es.subrange(1, es.len() as int);
        assert(forall|i: int| 0 <= i < t.len() ==> (#[trigger] t[i]) == es[i + 1]);
        lemma_stream_upsert_absent(t, id, fields);
        assert(seq![es[0]] + t.push((id, fields)) =~= es.push((id, fields)));
    }
}

/// How one store command turns the item list `items` into `items2` and
/// what it replies: the exact relation `handle` satisfies.
pub open spec fn store_step(
    command: RedisStoreCommand,
    now: int,
    items: Seq<(Vec<u8>, StoreValue)>,
    items2: Seq<(Vec<u8>, StoreValue)>,
    r: Result<RESPValue, StoreError>,
) -> bool {
    let m = store_map(items);
    let m2 = store_map(items2);
    match command {
                    RedisStoreCommand::Get { key } => {
                        if !m.contains_key(key@) {
                            &&& r == Ok::<RESPValue, StoreError>(RESPValue::NullBulkString)
                            &&& m2 =~= m
                        } else if m[key@] matches EntryModel::StreamEntry { .. } {
                            &&& r == Err::<RESPValue, StoreError>(StoreError::WrongTypeForGet)
                            &&& m2 =~= m
                        } else if is_expired(m[key@], now) {
                            &&& r == Ok::<RESPValue, StoreError>(RESPValue::NullBulkString)
                            &&& m2 =~= m.remove(key@)
                        } else {
                            &&& (r matches Ok(v) && view_value(v) == ValueModel::BulkString(
                                m[key@]->StringEntry_value,
                            ))
                            &&& m2 =~= m
                        }
                    },
                    RedisStoreCommand::SetValue { key, value, px } => {
                        &&& (r matches Ok(v) && view_value(v) == ValueModel::SimpleString(
                            spec_lit_ok(),
                        ))
                        &&& m2 =~= m.insert(
                            key@,
                            EntryModel::StringEntry {
                                value: value@,
                                expiration: match px {
                                    Some(t) => Some(t as int),
                                    None => None,
                                },
                            },
                        )
                    },
                    RedisStoreCommand::Keys { key } => {
                        if key@ == spec_lit_star() {
                            &&& (r matches Ok(v) && view_value(v) == ValueModel::Array(
                                live_keys_bulks(items, now),
                            ))
                            &&& m2 =~= m
                        } else {
                            &&& r == Err::<RESPValue, StoreError>(StoreError::UnknownKeyPattern)
                            &&& m2 =~= m
                        }
                    },
                    RedisStoreCommand::Type { key } => {
                        if !m.contains_key(key@) {
                            &&& (r matches Ok(v) && view_value(v) == ValueModel::SimpleString(
                                spec_lit_none(),
                            ))
                            &&& m2 =~= m
                        } else if m[key@] matches EntryModel::StreamEntry { .. } {
                            &&& (r matches Ok(v) && view_value(v) == ValueModel::SimpleString(
                                spec_lit_stream(),
                            ))
                            &&& m2 =~= m
                        } else if is_expired(m[key@], now) {
                            &&& (r matches Ok(v) && view_value(v) == ValueModel::SimpleString(
                                spec_lit_none(),
                            ))
                            &&& m2 =~= m.remove(key@)
                        } else {
                            &&& (r matches Ok(v) && view_value(v) == ValueModel::SimpleString(
                                spec_lit_string(),
                            ))
                            &&& m2 =~= m
                        }
                    },
                    RedisStoreCommand::XAdd { key, entry_id, fields } => {
                        if !m.contains_key(key@) || is_expired(m[key@], now) {
                            &&& (r matches Ok(v) && view_value(v) == ValueModel::BulkString(
                                entry_id@,
                            ))
                            &&& m2 =~= m.insert(
                                key@,
                                EntryModel::StreamEntry {
                                    entries: seq![(entry_id@, views_of_pairs(fields@))],
                                },
                            )
                        } else if m[key@] matches EntryModel::StreamEntry { .. } {
                            &&& (r matches Ok(v) && view_value(v) == ValueModel::BulkString(
                                entry_id@,
                            ))
                            &&& m2 =~= m.insert(
                                key@,
                                EntryModel::StreamEntry {
                                    entries: stream_upsert(
                                        m[key@]->StreamEntry_entries,
                                        entry_id@,
                                        views_of_pairs(fields@),
                                    ),
                                },
                            )
                        } else {
                            &&& r == Err::<RESPValue, StoreError>(StoreError::NotAStream)
                            &&& m2 =~= m
                        }
                    },
                }
}

/// Index of the first stream entry carrying this id, if any.
fn find_entry(entries: &Vec<(Vec<u8>, Vec<(Vec<u8>, Vec<u8>)>)>, id: &Vec<u8>) -> (r: Option<
    usize,
>)
    ensures
        match r {
            Some(i) => i < entries@.len() && entries@[i as int].0@ == id@ && (forall|j: int|
                0 <= j < i ==> (#[trigger] entries@[j]).0@ != id@),
            None => forall|j: int|
                0 <= j < entries@.len() ==> (#[trigger] entries@[j]).0@ != id@,
        },
{
    let mut i: usize = 0;
    while i < entries.len()
        invariant
            i <= entries@.len(),
            forall|j: int| 0 <= j < i ==> (#[trigger] entries@[j]).0@ != id@,
        decreases entries@.len() - i,
    {
        if bytes_eq(&entries[i].0, id) {
            return Some(i);
        }
        i = i + 1;
    }
    None
}

impl RedisStore {
    /// Applies one store command at time `now_millis` and returns the
    /// RESP reply. The contract gives, per command, the exact reply and
    /// the exact new keyspace.
    #[verifier::rlimit(100)]
    pub fn handle(&mut self, command: &RedisStoreCommand, now_millis: u64) -> (r: Result<
        RESPValue,
        StoreError,
    >)
        requires
            old(self).wf(),
        ensures
            final(self).wf(),
            store_step(
                *command,
                now_millis as int,
                old(self).items@,
                final(self).items@,
                r,
            ),
            r is Err ==> final(self).items == old(self).items,
    {
        proof {
            lemma_store_map_index(self.items@);
        }
        match command {
            RedisStoreCommand::Get { key } => {
                match self.find(key) {
                    None => Ok(RESPValue::NullBulkString),
                    Some(i) => {
                        let ghost m = store_map(self.items@);
                        match &self.items[i].1 {
                            StoreValue::Stream { .. } => Err(StoreError::WrongTypeForGet),
                            StoreValue::String { value, expiration } => {
                                let expired: bool = match expiration {
                                    Some(t) => *t <= now_millis,
                                    None => false,
                                };
                                if expired {
                                    proof {
                                        lemma_store_map_remove(self.items@, i as int);
                                    }
                                    let _ = self.items.remove(i);
                                    Ok(RESPValue::NullBulkString)
                                } else {
                                    let out = clone_bytes(value);
                                    Ok(RESPValue::BulkString(out))
                                }
                            },
                        }
                    },
                }
            },
            RedisStoreCommand::SetValue { key, value, px } => {
                let ghost m = store_map(self.items@);
                let ghost items0 = self.items@;
                match self.find(key) {
                    Some(i) => {
                        proof {
                            lemma_store_map_remove(self.items@, i as int);
                        }
                        let _ = self.items.remove(i);
                        proof {
                            assert forall|j: int|
                                0 <= j < self.items@.len() implies (
                            #[trigger] self.items@[j]).0@ != key@ by {
                                let j0 = if j < i {
                                    j
                                } else {
                                    j + 1
                                };
                                assert(self.items@[j] == items0[j0]);
                            }
                        }
                    },
                    None => {},
                }
                let ghost mid = self.items@;
                let k = clone_bytes(key);
                let v = clone_bytes(value);
                self.items.push((k, StoreValue::String { value: v, expiration: *px }));
                proof {
                    assert(self.items@.drop_last() =~= mid);
                    assert(store_map(self.items@) == store_map(mid).insert(
                        self.items@.last().0@,
                        view_entry(self.items@.last().1),
                    ));
                }
                Ok(RESPValue::SimpleString(lit_ok()))
            },
            RedisStoreCommand::Keys { key } => {
                let star = lit_star();
                if bytes_eq(key, &star) {
                    let mut vals: Vec<RESPValue> = Vec::new();
                    let mut i: usize = 0;
                    while i < self.items.len()
                        invariant
                            i <= self.items@.len(),
                            self.wf(),
                            self == old(self),
                            view_values(vals@) =~= live_keys_bulks(
                                self.items@.take(i as int),
                                now_millis as int,
                            ),
                        decreases self.items@.len() - i,
                    {
                        let expired: bool = match &self.items[i].1 {
                            StoreValue::String { expiration, .. } => match expiration {
                                Some(t) => *t <= now_millis,
                                None => false,
                            },
                            StoreValue::Stream { .. } => false,
                        };
                        let ghost vals_old = vals@;
                        if !expired {
                            let k = clone_bytes(&self.items[i].0);
                            vals.push(RESPValue::BulkString(k));
                        }
                        i = i + 1;
                        proof {
                            assert(self.items@.take(i as int).drop_last() =~= self.items@.take(
                                i - 1,
                            ));
                            assert(self.items@.take(i as int).last() == self.items@[i - 1]);
                            assert(expired == is_expired(
                                view_entry(self.items@[i - 1].1),
                                now_millis as int,
                            ));
                            if !expired {
                                lemma_view_values_push(vals_old, vals@.last());
                                assert(vals@ =~= vals_old.push(vals@.last()));
                            }
                            assert(view_values(vals@) =~= live_keys_bulks(
                                self.items@.take(i as int),
                                now_millis as int,
                            ));
                        }
                    }
                    proof {
                        assert(self.items@.take(self.items@.len() as int) =~= self.items@);
                    }
                    Ok(RESPValue::Array(vals))
                } else {
                    Err(StoreError::UnknownKeyPattern)
                }
            },
            RedisStoreCommand::Type { key } => {
                match self.find(key) {
                    None => Ok(RESPValue::SimpleString(lit_none())),
                    Some(i) => {
                        match &self.items[i].1 {
                            StoreValue::String { expiration, .. } => {
                                let expired: bool = match expiration {
                                    Some(t) => *t <= now_millis,
                                    None => false,
                                };
                                if expired {
                                    proof {
                                        lemma_store_map_remove(self.items@, i as int);
                                    }
                                    let _ = self.items.remove(i);
                                    Ok(RESPValue::SimpleString(lit_none()))
                                } else {
                                    Ok(RESPValue::SimpleString(lit_string()))
                                }
                            },
                            StoreValue::Stream { .. } => Ok(
                                RESPValue::SimpleString(lit_stream()),
                            ),
                        }
                    },
                }
            },
            RedisStoreCommand::XAdd { key, entry_id, fields } => {
                let ghost m = store_map(self.items@);
                let ghost items0 = self.items@;
                match self.find(key) {
                    None => {
                        let k = clone_bytes(key);
                        let id = clone_bytes(entry_id);
                        let fs = clone_pairs(fields);
                        let mut entries: Vec<(Vec<u8>, Vec<(Vec<u8>, Vec<u8>)>)> = Vec::new();
                        entries.push((id, fs));
                        proof {
                            assert(view_stream(entries@) =~= seq![
                                (entry_id@, views_of_pairs(fields@)),
                            ]);
                        }
                        let ghost mid = self.items@;
                        self.items.push((k, StoreValue::Stream { entries }));
                        proof {
                            assert(self.items@.drop_last() =~= mid);
                            assert(store_map(self.items@) == store_map(mid).insert(
                                self.items@.last().0@,
                                view_entry(self.items@.last().1),
                            ));
                        }
                        let id2 = clone_bytes(entry_id);
                        Ok(RESPValue::BulkString(id2))
                    },
                    Some(i) => {
                        let live_string: bool = match &self.items[i].1 {
                            StoreValue::String { expiration, .. } => match expiration {
                                Some(t) => *t > now_millis,
                                None => true,
                            },
                            StoreValue::Stream { .. } => false,
                        };
                        if live_string {
                            Err(StoreError::NotAStream)
                        } else {
                            proof {
                                lemma_store_map_remove(self.items@, i as int);
                            }
                            let (k0, sv) = self.items.remove(i);
                            proof {
                                assert forall|j: int|
                                    0 <= j < self.items@.len() implies (
                                #[trigger] self.items@[j]).0@ != key@ by {
                                    let j0 = if j < i {
                                        j
                                    } else {
                                        j + 1
                                    };
                                    assert(self.items@[j] == items0[j0]);
                                }
                            }
                            match sv {
                                StoreValue::Stream { mut entries } => {
                                    let ghost es_exec0 = entries@;
                                    let ghost es_old = view_stream(entries@);
                                    let id = clone_bytes(entry_id);
                                    let fs = clone_pairs(fields);
                                    match find_entry(&entries, entry_id) {
                                        Some(j) => {
                                            let e = vstd::std_specs::vec::vec_index_mut(
                                                &mut entries,
                                                j,
                                            );
                                            *e = (id, fs);
                                            proof {
                                                assert(entries@ =~= es_exec0.update(
                                                    j as int,
                                                    entries@[j as int],
                                                ));
                                                assert(entries@[j as int].0@ == entry_id@);
                                                assert(views_of_pairs(entries@[j as int].1@)
                                                    =~= views_of_pairs(fields@));
                                                assert(view_stream(entries@) =~= es_old.update(
                                                    j as int,
                                                    (entry_id@, views_of_pairs(fields@)),
                                                ));
                                                assert(es_old[j as int].0 == entry_id@);
                                                assert(forall|t: int|
                                                    0 <= t < j ==> (#[trigger] es_old[t]).0
                                                        != entry_id@);
                                                lemma_stream_upsert_found(
                                                    es_old,
                                                    entry_id@,
                                                    views_of_pairs(fields@),
                                                    j as int,
                                                );
                                            }
                                        },
                                        None => {
                                            entries.push((id, fs));
                                            proof {
                                                assert(view_stream(entries@) =~= es_old.push(
                                                    (entry_id@, views_of_pairs(fields@)),
                                                ));
                                                assert(forall|t: int|
                                                    0 <= t < es_old.len() ==> (
                                                #[trigger] es_old[t]).0 != entry_id@);
                                                lemma_stream_upsert_absent(
                                                    es_old,
                                                    entry_id@,
                                                    views_of_pairs(fields@),
                                                );
                                            }
                                        },
                                    }
                                    let ghost mid = self.items@;
                                    self.items.push((k0, StoreValue::Stream { entries }));
                                    proof {
                                        assert(self.items@.drop_last() =~= mid);
                                        assert(store_map(self.items@) == store_map(mid).insert(
                                            self.items@.last().0@,
                                            view_entry(self.items@.last().1),
                                        ));
                                    }
                                    let id2 = clone_bytes(entry_id);
                                    Ok(RESPValue::BulkString(id2))
                                },
                                StoreValue::String { value, expiration } => {
                                    // the string had expired: the key reads as absent,
                                    // so a fresh stream takes its place
                                    proof {
                                        assert(items0[i as int].1 == StoreValue::String {
                                            value,
                                            expiration,
                                        });
                                        assert(is_expired(m[key@], now_millis as int));
                                    }
                                    let id = clone_bytes(entry_id);
                                    let fs = clone_pairs(fields);
                                    let mut entries: Vec<(Vec<u8>, Vec<(Vec<u8>, Vec<u8>)>)> =
                                        Vec::new();
                                    entries.push((id, fs));
                                    proof {
                                        assert(view_stream(entries@) =~= seq![
                                            (entry_id@, views_of_pairs(fields@)),
                                        ]);
                                    }
                                    let ghost mid = self.items@;
                                    self.items.push((k0, StoreValue::Stream { entries }));
                                    proof {
                                        assert(self.items@.drop_last() =~= mid);
                                        assert(store_map(self.items@) == store_map(mid).insert(
                                            self.items@.last().0@,
                                            view_entry(self.items@.last().1),
                                        ));
                                    }
                                    let id2 = clone_bytes(entry_id);
                                    Ok(RESPValue::BulkString(id2))
                                },
                            }
                        }
                    },
                }
            },
        }
    }
}



impl RedisStore {
    /// Folds another store into this one; where both hold a key, the
    /// other's entry wins.
    pub fn merge(&mut self, other: RedisStore)
        requires
            old(self).wf(),
        ensures
            final(self).wf(),
            store_map(final(self).items@) =~= store_map(old(self).items@).union_prefer_right(
                store_map(other.items@),
            ),
    {
        let ghost other0 = other.items@;
        let ghost base = store_map(old(self).items@);
        let mut rest = other.items;
        let total = rest.len();
        proof {
            assert(total == other0.len());
            assert(other0.take(0) =~= Seq::<(Vec<u8>, StoreValue)>::empty());
            assert(store_map(other0.take(0)) =~= Map::<Seq<u8>, EntryModel>::empty());
            assert(store_map(self.items@) =~= base.union_prefer_right(store_map(other0.take(0))));
        }
        let mut k: usize = 0;
        while rest.len() > 0
            invariant
                self.wf(),
                other0.len() <= usize::MAX,
                k + rest@.len() == other0.len(),
                rest@ =~= other0.subrange(k as int, other0.len() as int),
                store_map(self.items@) =~= base.union_prefer_right(store_map(other0.take(k as int))),
            decreases rest@.len(),
        {
            let ghost mid_map = store_map(self.items@);
            let ghost items0 = self.items@;
            let (key, value) = rest.remove(0);
            proof {
                assert(key == other0[k as int].0);
                assert(value == other0[k as int].1);
            }
            match self.find(&key) {
                Some(i) => {
                    proof {
                        lemma_store_map_remove(self.items@, i as int);
                    }
                    let _ = self.items.remove(i);
                    proof {
                        assert forall|j: int|
                            0 <= j < self.items@.len() implies (#[trigger] self.items@[j]).0@
                            != key@ by {
                            let j0 = if j < i {
                                j
                            } else {
                                j + 1
                            };
                            assert(self.items@[j] == items0[j0]);
                        }
                    }
                },
                None => {},
            }
            let ghost mid = self.items@;
            self.items.push((key, value));
            k = k + 1;
            proof {
                assert(self.items@.drop_last() =~= mid);
                assert(store_map(self.items@) == store_map(mid).insert(
                    self.items@.last().0@,
                    view_entry(self.items@.last().1),
                ));
                assert(other0.take(k as int).drop_last() =~= other0.take(k - 1));
                assert(other0.take(k as int).last() == other0[k - 1]);
                assert(store_map(other0.take(k as int)) == store_map(other0.take(k - 1)).insert(
                    other0[k - 1].0@,
                    view_entry(other0[k - 1].1),
                ));
                assert(store_map(self.items@) =~= base.union_prefer_right(
                    store_map(other0.take(k as int)),
                ));
                assert(rest@ =~= other0.subrange(k as int, other0.len() as int));
            }
        }
        proof {
            assert(other0.take(other0.len() as int) =~= other0);
        }
    }
}


} // verus!
