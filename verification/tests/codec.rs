use redis_server::resp::{RESPValue, encode};
use redis_server::resp_stream::RESPStream;

fn round_trip(value: RESPValue) -> RESPValue {
    let bytes = encode(&value);
    let mut stream = RESPStream::new();
    stream.feed(&bytes);
    stream.close();
    stream.read_value().unwrap().unwrap()
}

#[test]
fn encodes_simple_string() {
    assert_eq!(encode(&RESPValue::SimpleString(b"OK".to_vec())), b"+OK\r\n".to_vec());
}

#[test]
fn encodes_integers() {
    assert_eq!(encode(&RESPValue::Integer(0)), b":0\r\n".to_vec());
    assert_eq!(encode(&RESPValue::Integer(-42)), b":-42\r\n".to_vec());
    assert_eq!(
        encode(&RESPValue::Integer(i64::MAX)),
        b":9223372036854775807\r\n".to_vec()
    );
    assert_eq!(
        encode(&RESPValue::Integer(i64::MIN)),
        b":-9223372036854775808\r\n".to_vec()
    );
}

#[test]
fn zero_length_bulk_string_encodes_and_parses_back_empty() {
    let bytes = encode(&RESPValue::BulkString(vec![]));
    assert_eq!(bytes, b"$0\r\n\r\n".to_vec());
    let mut stream = RESPStream::new();
    stream.feed(&bytes);
    stream.close();
    // parses back to empty bytes, not to the null bulk string
    assert_eq!(
        stream.read_value().unwrap(),
        Some(RESPValue::BulkString(vec![]))
    );
}

#[test]
fn null_values_encode_as_negative_lengths() {
    assert_eq!(encode(&RESPValue::NullBulkString), b"$-1\r\n".to_vec());
    assert_eq!(encode(&RESPValue::NullArray), b"*-1\r\n".to_vec());
}

#[test]
fn round_trips_nested_values() {
    let value = RESPValue::Array(vec![
        RESPValue::SimpleString(b"hello".to_vec()),
        RESPValue::SimpleError(b"ERR oops".to_vec()),
        RESPValue::Integer(-7),
        RESPValue::BulkString(b"a\r\nb".to_vec()),
        RESPValue::NullBulkString,
        RESPValue::Array(vec![RESPValue::Integer(1), RESPValue::NullArray]),
    ]);
    let expected = RESPValue::Array(vec![
        RESPValue::SimpleString(b"hello".to_vec()),
        RESPValue::SimpleError(b"ERR oops".to_vec()),
        RESPValue::Integer(-7),
        RESPValue::BulkString(b"a\r\nb".to_vec()),
        RESPValue::NullBulkString,
        RESPValue::Array(vec![RESPValue::Integer(1), RESPValue::NullArray]),
    ]);
    assert_eq!(round_trip(value), expected);
}

#[test]
fn round_trips_binary_bulk_strings() {
    let payload: Vec<u8> = (0u8..=255u8).collect();
    let value = RESPValue::BulkString(payload.clone());
    assert_eq!(round_trip(value), RESPValue::BulkString(payload));
}
