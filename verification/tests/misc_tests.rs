use redis_server::decimal::{fmt_u64, fmt_i64};
use redis_server::rdb::empty_rdb;
use redis_server::resp::RESPValue;
use redis_server::resp_builder::RESPBuilder;
use redis_server::server::ClientId;
use redis_server::value::RedisValue;

#[test]
fn formats_decimal_digits() {
    assert_eq!(fmt_u64(0), b"0".to_vec());
    assert_eq!(fmt_u64(90210), b"90210".to_vec());
    assert_eq!(fmt_u64(u64::MAX), b"18446744073709551615".to_vec());
    assert_eq!(fmt_i64(-1), b"-1".to_vec());
    assert_eq!(fmt_i64(i64::MIN), b"-9223372036854775808".to_vec());
}

#[test]
fn empty_rdb_is_the_fixed_snapshot() {
    let rdb = empty_rdb();
    assert_eq!(rdb.len(), 88);
    assert_eq!(&rdb[..9], b"REDIS0011");
    assert_eq!(rdb[rdb.len() - 9], 0xFF);
}

#[test]
fn client_id_sentinel_marks_the_primary() {
    let primary = ClientId::primary();
    assert_eq!(primary.0, u64::MAX);
    let first = ClientId(0);
    assert_eq!(first.next().0, 1);
}

#[test]
fn redis_value_exposes_bulk_strings() {
    let bulk = RedisValue::BulkString(String::from("hello"));
    assert_eq!(bulk.to_bulk_string(), Some(String::from("hello")));
    assert_eq!(RedisValue::NullBulkString.to_bulk_string(), None);
}

#[test]
fn builder_collects_bulk_strings() {
    let value = RESPBuilder::array()
        .bulk(b"GET".to_vec())
        .bulk(b"foo".to_vec())
        .build();
    assert_eq!(
        value,
        RESPValue::Array(vec![
            RESPValue::BulkString(b"GET".to_vec()),
            RESPValue::BulkString(b"foo".to_vec()),
        ])
    );
}
