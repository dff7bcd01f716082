use redis_server::resp::RESPValue;
use redis_server::resp_stream::RESPStream;

fn stream_with(bytes: &[u8]) -> RESPStream {
    let mut stream = RESPStream::new();
    stream.feed(&bytes.to_vec());
    stream.close();
    stream
}

fn next_value(stream: &mut RESPStream) -> Result<Option<RESPValue>, redis_server::resp_stream::RespError> {
    stream.read_value()
}

#[test]
fn resp_reader_parses_simple_string() {
    let mut stream = stream_with(b"+PING\r\n");
    let value = next_value(&mut stream);
    assert_eq!(value.unwrap(), Some(RESPValue::SimpleString(b"PING".to_vec())));
}

#[test]
fn resp_reader_parses_simple_error() {
    let mut stream = stream_with(b"-ERR key does not exist\r\n");
    let value = next_value(&mut stream);
    assert_eq!(
        value.unwrap(),
        Some(RESPValue::SimpleError(b"ERR key does not exist".to_vec()))
    );
}

#[test]
fn resp_reader_parses_integer() {
    let mut stream = stream_with(b":123\r\n:-123\r\n:+123\r\n:123a\r\n");
    assert_eq!(next_value(&mut stream).unwrap(), Some(RESPValue::Integer(123)));
    assert_eq!(next_value(&mut stream).unwrap(), Some(RESPValue::Integer(-123)));
    assert_eq!(next_value(&mut stream).unwrap(), Some(RESPValue::Integer(123)));
    assert!(next_value(&mut stream).is_err());
}

#[test]
fn resp_reader_parses_bulk_string() {
    let mut stream = stream_with(b"$1\r\na\r\n$5\r\nhello\r\n$-1\r\n$0\r\n\r\n$5\r\ntest\r\n");
    assert_eq!(
        next_value(&mut stream).unwrap(),
        Some(RESPValue::BulkString(b"a".to_vec()))
    );
    assert_eq!(
        next_value(&mut stream).unwrap(),
        Some(RESPValue::BulkString(b"hello".to_vec()))
    );
    assert_eq!(next_value(&mut stream).unwrap(), Some(RESPValue::NullBulkString));
    assert_eq!(
        next_value(&mut stream).unwrap(),
        Some(RESPValue::BulkString(b"".to_vec()))
    );
    // "$5\r\ntest\r\n" holds only four payload bytes before the
    // terminator, and the stream is closed: an error.
    assert!(next_value(&mut stream).is_err());
}

#[test]
fn resp_reader_parses_array() {
    let mut stream = stream_with(b"*1\r\n:123\r\n*2\r\n:123\r\n:456\r\n*0\r\n*-1\r\n");
    assert_eq!(
        next_value(&mut stream).unwrap(),
        Some(RESPValue::Array(vec![RESPValue::Integer(123)]))
    );
    assert_eq!(
        next_value(&mut stream).unwrap(),
        Some(RESPValue::Array(vec![
            RESPValue::Integer(123),
            RESPValue::Integer(456)
        ]))
    );
    assert_eq!(next_value(&mut stream).unwrap(), Some(RESPValue::Array(vec![])));
    assert_eq!(next_value(&mut stream).unwrap(), Some(RESPValue::NullArray));
}

#[test]
fn resp_stream_parses_simple_string() {
    let mut stream = stream_with(b"+PING\r\n");
    assert_eq!(
        next_value(&mut stream).unwrap(),
        Some(RESPValue::SimpleString(b"PING".to_vec()))
    );
}

#[test]
fn resp_stream_parses_simple_error() {
    let mut stream = stream_with(b"-ERR key does not exist\r\n");
    assert_eq!(
        next_value(&mut stream).unwrap(),
        Some(RESPValue::SimpleError(b"ERR key does not exist".to_vec()))
    );
}

#[test]
fn resp_stream_parses_integer() {
    let mut stream = stream_with(b":123\r\n:-123\r\n:+123\r\n:123a\r\n");
    assert_eq!(next_value(&mut stream).unwrap(), Some(RESPValue::Integer(123)));
    assert_eq!(next_value(&mut stream).unwrap(), Some(RESPValue::Integer(-123)));
    assert_eq!(next_value(&mut stream).unwrap(), Some(RESPValue::Integer(123)));
    assert!(next_value(&mut stream).is_err());
}

#[test]
fn resp_stream_parses_bulk_string() {
    let mut stream = stream_with(b"$1\r\na\r\n$5\r\nhello\r\n$-1\r\n$0\r\n\r\n$5\r\ntest\r\n");
    assert_eq!(
        next_value(&mut stream).unwrap(),
        Some(RESPValue::BulkString(b"a".to_vec()))
    );
    assert_eq!(
        next_value(&mut stream).unwrap(),
        Some(RESPValue::BulkString(b"hello".to_vec()))
    );
    assert_eq!(next_value(&mut stream).unwrap(), Some(RESPValue::NullBulkString));
    assert_eq!(
        next_value(&mut stream).unwrap(),
        Some(RESPValue::BulkString(b"".to_vec()))
    );
    assert!(next_value(&mut stream).is_err());
}

#[test]
fn resp_stream_parses_array() {
    let mut stream = stream_with(b"*1\r\n:123\r\n*2\r\n:123\r\n:456\r\n*0\r\n*-1\r\n");
    assert_eq!(
        next_value(&mut stream).unwrap(),
        Some(RESPValue::Array(vec![RESPValue::Integer(123)]))
    );
    assert_eq!(
        next_value(&mut stream).unwrap(),
        Some(RESPValue::Array(vec![
            RESPValue::Integer(123),
            RESPValue::Integer(456)
        ]))
    );
    assert_eq!(next_value(&mut stream).unwrap(), Some(RESPValue::Array(vec![])));
    assert_eq!(next_value(&mut stream).unwrap(), Some(RESPValue::NullArray));
}

#[test]
fn parses_incrementally_across_feeds() {
    let mut stream = RESPStream::new();
    stream.feed(&b"$5\r\nhe".to_vec());
    assert_eq!(stream.read_value().unwrap(), None);
    stream.feed(&b"llo\r\n".to_vec());
    assert_eq!(
        stream.read_value().unwrap(),
        Some(RESPValue::BulkString(b"hello".to_vec()))
    );
}

#[test]
fn rejects_unknown_tag() {
    let mut stream = stream_with(b"x123\r\n");
    assert!(stream.read_value().is_err());
}

#[test]
fn parses_rdb_frame_without_trailing_terminator() {
    let mut stream = stream_with(b"$3\r\nabc+OK\r\n");
    let rdb = stream.read_rdb_file().unwrap();
    assert_eq!(rdb, Some(b"abc".to_vec()));
    assert_eq!(
        stream.read_value().unwrap(),
        Some(RESPValue::SimpleString(b"OK".to_vec()))
    );
}

#[test]
fn rejects_malformed_terminators_and_lengths() {
    // a carriage return must be followed by a line feed
    let mut stream = stream_with(b"+OK\rX\n");
    assert!(stream.read_value().is_err());
    // bulk lengths below the null sentinel are refused
    let mut stream = stream_with(b"$-2\r\n");
    assert!(stream.read_value().is_err());
    // so are array counts below it
    let mut stream = stream_with(b"*-2\r\n");
    assert!(stream.read_value().is_err());
    // an integer needs at least one digit
    let mut stream = stream_with(b":+\r\n");
    assert!(stream.read_value().is_err());
    // and must fit in a signed 64-bit word
    let mut stream = stream_with(b":99999999999999999999\r\n");
    assert!(stream.read_value().is_err());
}

#[test]
fn reading_a_closed_stream_mid_value_fails() {
    let mut stream = RESPStream::new();
    stream.feed(&b"$10\r\nabc".to_vec());
    assert_eq!(stream.read_value().unwrap(), None);
    stream.close();
    assert!(stream.read_value().is_err());
}
