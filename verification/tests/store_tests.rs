use redis_server::command::RedisStoreCommand;
use redis_server::resp::RESPValue;
use redis_server::store::{RedisStore, StoreError};

fn set(store: &mut RedisStore, key: &[u8], value: &[u8], px: Option<u64>, now: u64) -> RESPValue {
    store
        .handle(
            &RedisStoreCommand::SetValue {
                key: key.to_vec(),
                value: value.to_vec(),
                px,
            },
            now,
        )
        .unwrap()
}

fn get(store: &mut RedisStore, key: &[u8], now: u64) -> Result<RESPValue, StoreError> {
    store.handle(&RedisStoreCommand::Get { key: key.to_vec() }, now)
}

#[test]
fn set_then_get_returns_the_value() {
    let mut store = RedisStore::new();
    let reply = set(&mut store, b"foo", b"bar", None, 0);
    assert_eq!(reply, RESPValue::SimpleString(b"OK".to_vec()));
    assert_eq!(
        get(&mut store, b"foo", 10).unwrap(),
        RESPValue::BulkString(b"bar".to_vec())
    );
}

#[test]
fn get_of_missing_key_is_null() {
    let mut store = RedisStore::new();
    assert_eq!(get(&mut store, b"nope", 0).unwrap(), RESPValue::NullBulkString);
}

#[test]
fn set_overwrites_value_and_expiry() {
    let mut store = RedisStore::new();
    set(&mut store, b"k", b"one", Some(50), 0);
    set(&mut store, b"k", b"two", None, 10);
    // the second write removed the expiry, so the key survives past it
    assert_eq!(
        get(&mut store, b"k", 1000).unwrap(),
        RESPValue::BulkString(b"two".to_vec())
    );
}

#[test]
fn expired_key_reads_as_null_and_is_removed() {
    let mut store = RedisStore::new();
    set(&mut store, b"foo", b"bar", Some(1100), 1000);
    // before the expiry instant the value is there
    assert_eq!(
        get(&mut store, b"foo", 1050).unwrap(),
        RESPValue::BulkString(b"bar".to_vec())
    );
    // strictly after it, the read is null ...
    assert_eq!(get(&mut store, b"foo", 1200).unwrap(), RESPValue::NullBulkString);
    // ... and the entry is gone: TYPE now reports none
    let ty = store
        .handle(&RedisStoreCommand::Type { key: b"foo".to_vec() }, 1200)
        .unwrap();
    assert_eq!(ty, RESPValue::SimpleString(b"none".to_vec()));
}

#[test]
fn type_names_the_kind() {
    let mut store = RedisStore::new();
    set(&mut store, b"s", b"v", None, 0);
    store
        .handle(
            &RedisStoreCommand::XAdd {
                key: b"st".to_vec(),
                entry_id: b"1-1".to_vec(),
                fields: vec![(b"a".to_vec(), b"b".to_vec())],
            },
            0,
        )
        .unwrap();
    let string_ty = store
        .handle(&RedisStoreCommand::Type { key: b"s".to_vec() }, 0)
        .unwrap();
    assert_eq!(string_ty, RESPValue::SimpleString(b"string".to_vec()));
    let stream_ty = store
        .handle(&RedisStoreCommand::Type { key: b"st".to_vec() }, 0)
        .unwrap();
    assert_eq!(stream_ty, RESPValue::SimpleString(b"stream".to_vec()));
}

#[test]
fn keys_star_lists_all_keys() {
    let mut store = RedisStore::new();
    set(&mut store, b"a", b"1", None, 0);
    set(&mut store, b"b", b"2", None, 0);
    let reply = store
        .handle(&RedisStoreCommand::Keys { key: b"*".to_vec() }, 0)
        .unwrap();
    assert_eq!(
        reply,
        RESPValue::Array(vec![
            RESPValue::BulkString(b"a".to_vec()),
            RESPValue::BulkString(b"b".to_vec()),
        ])
    );
}

#[test]
fn keys_with_other_pattern_is_refused() {
    let mut store = RedisStore::new();
    assert_eq!(
        store.handle(&RedisStoreCommand::Keys { key: b"a*".to_vec() }, 0),
        Err(StoreError::UnknownKeyPattern)
    );
}

#[test]
fn get_on_stream_is_refused() {
    let mut store = RedisStore::new();
    store
        .handle(
            &RedisStoreCommand::XAdd {
                key: b"st".to_vec(),
                entry_id: b"1-1".to_vec(),
                fields: vec![],
            },
            0,
        )
        .unwrap();
    assert_eq!(get(&mut store, b"st", 0), Err(StoreError::WrongTypeForGet));
}

#[test]
fn xadd_appends_in_insertion_order() {
    let mut store = RedisStore::new();
    let first = store
        .handle(
            &RedisStoreCommand::XAdd {
                key: b"st".to_vec(),
                entry_id: b"1-1".to_vec(),
                fields: vec![(b"a".to_vec(), b"1".to_vec())],
            },
            0,
        )
        .unwrap();
    assert_eq!(first, RESPValue::BulkString(b"1-1".to_vec()));
    let second = store
        .handle(
            &RedisStoreCommand::XAdd {
                key: b"st".to_vec(),
                entry_id: b"1-2".to_vec(),
                fields: vec![(b"b".to_vec(), b"2".to_vec())],
            },
            0,
        )
        .unwrap();
    assert_eq!(second, RESPValue::BulkString(b"1-2".to_vec()));
}

#[test]
fn xadd_on_string_is_refused_and_string_untouched() {
    let mut store = RedisStore::new();
    set(&mut store, b"k", b"v", None, 0);
    let refused = store.handle(
        &RedisStoreCommand::XAdd {
            key: b"k".to_vec(),
            entry_id: b"1-1".to_vec(),
            fields: vec![],
        },
        0,
    );
    assert_eq!(refused, Err(StoreError::NotAStream));
    // the string is untouched
    assert_eq!(
        get(&mut store, b"k", 0).unwrap(),
        RESPValue::BulkString(b"v".to_vec())
    );
}

#[test]
fn set_twice_equals_set_once() {
    let mut once = RedisStore::new();
    set(&mut once, b"k", b"v", None, 0);
    let mut twice = RedisStore::new();
    set(&mut twice, b"k", b"v", None, 0);
    set(&mut twice, b"k", b"v", None, 0);
    assert_eq!(
        get(&mut once, b"k", 5).unwrap(),
        get(&mut twice, b"k", 5).unwrap()
    );
    let keys_once = once
        .handle(&RedisStoreCommand::Keys { key: b"*".to_vec() }, 5)
        .unwrap();
    let keys_twice = twice
        .handle(&RedisStoreCommand::Keys { key: b"*".to_vec() }, 5)
        .unwrap();
    assert_eq!(keys_once, keys_twice);
}

#[test]
fn merge_prefers_the_other_stores_entries() {
    let mut left = RedisStore::new();
    set(&mut left, b"a", b"old", None, 0);
    set(&mut left, b"keep", b"kept", None, 0);
    let mut right = RedisStore::new();
    set(&mut right, b"a", b"new", None, 0);
    set(&mut right, b"b", b"2", None, 0);
    left.merge(right);
    assert_eq!(
        get(&mut left, b"a", 0).unwrap(),
        RESPValue::BulkString(b"new".to_vec())
    );
    assert_eq!(
        get(&mut left, b"b", 0).unwrap(),
        RESPValue::BulkString(b"2".to_vec())
    );
    assert_eq!(
        get(&mut left, b"keep", 0).unwrap(),
        RESPValue::BulkString(b"kept".to_vec())
    );
}

#[test]
fn type_on_expired_unswept_key_is_none() {
    let mut store = RedisStore::new();
    set(&mut store, b"k", b"v", Some(100), 0);
    // no GET swept the key; TYPE itself sees the expiry
    let ty = store
        .handle(&RedisStoreCommand::Type { key: b"k".to_vec() }, 200)
        .unwrap();
    assert_eq!(ty, RESPValue::SimpleString(b"none".to_vec()));
}

#[test]
fn keys_star_skips_expired_entries() {
    let mut store = RedisStore::new();
    set(&mut store, b"gone", b"1", Some(100), 0);
    set(&mut store, b"still", b"2", None, 0);
    let reply = store
        .handle(&RedisStoreCommand::Keys { key: b"*".to_vec() }, 200)
        .unwrap();
    assert_eq!(
        reply,
        RESPValue::Array(vec![RESPValue::BulkString(b"still".to_vec())])
    );
}

#[test]
fn xadd_on_expired_string_starts_a_stream() {
    let mut store = RedisStore::new();
    set(&mut store, b"k", b"v", Some(100), 0);
    let reply = store
        .handle(
            &RedisStoreCommand::XAdd {
                key: b"k".to_vec(),
                entry_id: b"1-1".to_vec(),
                fields: vec![(b"a".to_vec(), b"1".to_vec())],
            },
            200,
        )
        .unwrap();
    assert_eq!(reply, RESPValue::BulkString(b"1-1".to_vec()));
    let ty = store
        .handle(&RedisStoreCommand::Type { key: b"k".to_vec() }, 200)
        .unwrap();
    assert_eq!(ty, RESPValue::SimpleString(b"stream".to_vec()));
}

#[test]
fn xadd_with_same_id_replaces_the_entry() {
    let mut store = RedisStore::new();
    for fields in [
        vec![(b"a".to_vec(), b"1".to_vec())],
        vec![(b"a".to_vec(), b"2".to_vec())],
    ] {
        let reply = store
            .handle(
                &RedisStoreCommand::XAdd {
                    key: b"st".to_vec(),
                    entry_id: b"1-1".to_vec(),
                    fields,
                },
                0,
            )
            .unwrap();
        assert_eq!(reply, RESPValue::BulkString(b"1-1".to_vec()));
    }
    let ty = store
        .handle(&RedisStoreCommand::Type { key: b"st".to_vec() }, 0)
        .unwrap();
    assert_eq!(ty, RESPValue::SimpleString(b"stream".to_vec()));
}
