//! The properties the server keeps, stated on their own.
//!
//! Round-trip of the codec lives in `roundtrip`; the laws here concern
//! the store and the replication state.

use vstd::prelude::*;

use crate::command::RedisStoreCommand;
use crate::replication::{RedisReplication, RedisReplicationMode};
use crate::resp::{RESPValue, ValueModel, view_value};
use crate::store::{StoreValue, StoreError, EntryModel, store_map, store_step, is_expired};
use crate::keywords::spec_lit_none;

verus! {

/// What reaches a replica's socket is a suffix of the primary's
/// replication log: in a well-formed primary, the bytes handed to each
/// replica's connection since it joined — everything after the handshake
/// preamble — are exactly the log from that replica's join point on, and
/// `replicated_bytes` is the log's total length. Every byte written to a
/// replica is therefore replicated data the counter accounts for.
pub proof fn lemma_replica_stream_is_log_suffix(rep: RedisReplication, i: int)
    requires
        rep.wf(),
        rep.replication_mode matches RedisReplicationMode::Primary { replicas, .. }
            && 0 <= i < replicas@.len(),
    ensures
        rep.replication_mode matches RedisReplicationMode::Primary {
            replicas,
            replicated_bytes,
            log,
            ..
        } ==> replicated_bytes == log@.len() && replicas@[i].joined_at <= log@.len()
            && replicas@[i].sent@ =~= log@.skip(replicas@[i].joined_at as int),
{
}

/// Setting a key and reading it back before its expiry yields the value:
/// after a successful `SET k v`, a `GET k` at any time before the expiry
/// instant replies with `v` and leaves the keyspace as it was.
pub proof fn lemma_set_then_get(
    items1: Seq<(Vec<u8>, StoreValue)>,
    items2: Seq<(Vec<u8>, StoreValue)>,
    items3: Seq<(Vec<u8>, StoreValue)>,
    k: Vec<u8>,
    v: Vec<u8>,
    px: Option<u64>,
    k2: Vec<u8>,
    now1: int,
    now2: int,
    r1: Result<RESPValue, StoreError>,
    r2: Result<RESPValue, StoreError>,
)
    requires
        store_step(
            RedisStoreCommand::SetValue { key: k, value: v, px },
            now1,
            items1,
            items2,
            r1,
        ),
        store_step(RedisStoreCommand::Get { key: k2 }, now2, items2, items3, r2),
        k2@ == k@,
        px matches Some(t) ==> now2 < t,
    ensures
        r2 matches Ok(reply) && view_value(reply) == ValueModel::BulkString(v@),
        store_map(items3) =~= store_map(items2),
{
    let m2 = store_map(items2);
    assert(m2.contains_key(k@));
    assert(m2[k@] matches EntryModel::StringEntry { value, .. } && value == v@);
    assert(!is_expired(m2[k@], now2));
}

/// A `GET` strictly after a key's expiry instant replies with the null
/// bulk string and removes the entry.
pub proof fn lemma_get_after_expiry(
    items1: Seq<(Vec<u8>, StoreValue)>,
    items2: Seq<(Vec<u8>, StoreValue)>,
    k: Vec<u8>,
    t: int,
    now: int,
    r: Result<RESPValue, StoreError>,
)
    requires
        store_step(RedisStoreCommand::Get { key: k }, now, items1, items2, r),
        store_map(items1).contains_key(k@),
        store_map(items1)[k@] matches EntryModel::StringEntry { expiration: Some(t2), .. } && t2
            == t,
        t < now,
    ensures
        r == Ok::<RESPValue, StoreError>(RESPValue::NullBulkString),
        store_map(items2) =~= store_map(items1).remove(k@),
{
    assert(is_expired(store_map(items1)[k@], now));
}

/// Setting the same key to the same value twice leaves the store exactly
/// as one `SET` does.
pub proof fn lemma_set_idempotent(
    items1: Seq<(Vec<u8>, StoreValue)>,
    items2: Seq<(Vec<u8>, StoreValue)>,
    items3: Seq<(Vec<u8>, StoreValue)>,
    k: Vec<u8>,
    v: Vec<u8>,
    px: Option<u64>,
    k2: Vec<u8>,
    v2: Vec<u8>,
    px2: Option<u64>,
    now1: int,
    now2: int,
    r1: Result<RESPValue, StoreError>,
    r2: Result<RESPValue, StoreError>,
)
    requires
        store_step(
            RedisStoreCommand::SetValue { key: k, value: v, px },
            now1,
            items1,
            items2,
            r1,
        ),
        store_step(
            RedisStoreCommand::SetValue { key: k2, value: v2, px: px2 },
            now2,
            items2,
            items3,
            r2,
        ),
        k2@ == k@,
        v2@ == v@,
        px2 == px,
    ensures
        store_map(items3) =~= store_map(items2),
{
}

/// `XADD` on a key that holds a live string is refused and the string is
/// untouched. An expired string reads as absent, so `XADD` then starts a
/// fresh stream instead.
pub proof fn lemma_xadd_on_string_refused(
    items1: Seq<(Vec<u8>, StoreValue)>,
    items2: Seq<(Vec<u8>, StoreValue)>,
    k: Vec<u8>,
    entry_id: Vec<u8>,
    fields: Vec<(Vec<u8>, Vec<u8>)>,
    now: int,
    r: Result<RESPValue, StoreError>,
)
    requires
        store_step(
            RedisStoreCommand::XAdd { key: k, entry_id, fields },
            now,
            items1,
            items2,
            r,
        ),
        store_map(items1).contains_key(k@),
        store_map(items1)[k@] matches EntryModel::StringEntry { .. },
        !is_expired(store_map(items1)[k@], now),
    ensures
        r == Err::<RESPValue, StoreError>(StoreError::NotAStream),
        store_map(items2) =~= store_map(items1),
{
}


/// `TYPE` strictly after a key's expiry instant names no kind: the
/// expired string reads as absent, and the access removes it.
pub proof fn lemma_type_after_expiry(
    items1: Seq<(Vec<u8>, StoreValue)>,
    items2: Seq<(Vec<u8>, StoreValue)>,
    k: Vec<u8>,
    t: int,
    now: int,
    r: Result<RESPValue, StoreError>,
)
    requires
        store_step(RedisStoreCommand::Type { key: k }, now, items1, items2, r),
        store_map(items1).contains_key(k@),
        store_map(items1)[k@] matches EntryModel::StringEntry { expiration: Some(t2), .. } && t2
            == t,
        t < now,
    ensures
        r matches Ok(reply) && view_value(reply) == ValueModel::SimpleString(spec_lit_none()),
        store_map(items2) =~= store_map(items1).remove(k@),
{
    assert(is_expired(store_map(items1)[k@], now));
}

} // verus!
