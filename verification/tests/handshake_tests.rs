use redis_server::handshake::{Handshake, HandshakeState};
use redis_server::resp::RESPValue;

#[test]
fn handshake_walks_the_four_steps() {
    let (mut hs, first) = Handshake::start(6380);
    assert_eq!(first, b"*1\r\n$4\r\nPING\r\n".to_vec());
    assert_eq!(hs.state, HandshakeState::AwaitPong);

    let port_req = hs
        .on_reply(&RESPValue::SimpleString(b"PONG".to_vec()))
        .unwrap()
        .unwrap();
    assert_eq!(
        port_req,
        b"*3\r\n$8\r\nREPLCONF\r\n$14\r\nlistening-port\r\n$4\r\n6380\r\n".to_vec()
    );

    let capa_req = hs
        .on_reply(&RESPValue::SimpleString(b"OK".to_vec()))
        .unwrap()
        .unwrap();
    assert_eq!(
        capa_req,
        b"*3\r\n$8\r\nREPLCONF\r\n$4\r\ncapa\r\n$6\r\npsync2\r\n".to_vec()
    );

    let psync_req = hs
        .on_reply(&RESPValue::SimpleString(b"OK".to_vec()))
        .unwrap()
        .unwrap();
    assert_eq!(psync_req, b"*3\r\n$5\r\nPSYNC\r\n$1\r\n?\r\n$2\r\n-1\r\n".to_vec());

    let after_resync = hs
        .on_reply(&RESPValue::SimpleString(
            b"FULLRESYNC 8371b4fb1155b71f4a04d3e1bc3e18c4a990aeeb 0".to_vec(),
        ))
        .unwrap();
    assert!(after_resync.is_none());
    assert_eq!(hs.state, HandshakeState::AwaitRdb);

    hs.on_rdb().unwrap();
    assert_eq!(hs.state, HandshakeState::Done);
}

#[test]
fn handshake_rejects_unexpected_replies() {
    let (mut hs, _) = Handshake::start(6380);
    // anything but a simple-string PONG aborts the first step
    assert!(hs.on_reply(&RESPValue::SimpleString(b"NO".to_vec())).is_err());
    assert!(hs.on_reply(&RESPValue::Integer(1)).is_err());
    assert_eq!(hs.state, HandshakeState::AwaitPong);
}

#[test]
fn handshake_requires_the_fullresync_prefix() {
    let (mut hs, _) = Handshake::start(6380);
    hs.on_reply(&RESPValue::SimpleString(b"PONG".to_vec())).unwrap();
    hs.on_reply(&RESPValue::SimpleString(b"OK".to_vec())).unwrap();
    hs.on_reply(&RESPValue::SimpleString(b"OK".to_vec())).unwrap();
    assert!(hs
        .on_reply(&RESPValue::SimpleString(b"CONTINUE".to_vec()))
        .is_err());
    assert_eq!(hs.state, HandshakeState::AwaitFullResync);
}
