use redis_server::command::{
    RedisCommand, RedisServerCommand, RedisStoreCommand, RedisReplicationCommand, ReplConfSection,
    InfoSection, CommandError,
};
use redis_server::resp::RESPValue;
use redis_server::resp_stream::RESPStream;

fn parse_request(bytes: &[u8], now: u64) -> Result<RedisCommand, CommandError> {
    let mut stream = RESPStream::new();
    stream.feed(&bytes.to_vec());
    stream.close();
    let value = stream.read_value().unwrap().unwrap();
    RedisCommand::try_from(value, now)
}

#[test]
fn parses_ping() {
    let command = parse_request(b"*1\r\n$4\r\nping\r\n", 0);
    assert!(command.is_ok());
    assert_eq!(command.unwrap(), RedisCommand::Server(RedisServerCommand::Ping));
}

#[test]
fn command_parses_ping() {
    let command = parse_request(b"*1\r\n$4\r\nping\r\n", 0);
    assert!(command.is_ok());
    assert_eq!(command.unwrap(), RedisCommand::Server(RedisServerCommand::Ping));
}

#[test]
fn parses_commands_case_insensitively() {
    let command = parse_request(b"*2\r\n$4\r\nEcHo\r\n$2\r\nhi\r\n", 0).unwrap();
    assert_eq!(
        command,
        RedisCommand::Server(RedisServerCommand::Echo { message: b"hi".to_vec() })
    );
}

#[test]
fn parses_get_and_set() {
    let get = parse_request(b"*2\r\n$3\r\nGET\r\n$3\r\nfoo\r\n", 0).unwrap();
    assert_eq!(get, RedisCommand::Store(RedisStoreCommand::Get { key: b"foo".to_vec() }));

    let set = parse_request(b"*3\r\n$3\r\nSET\r\n$3\r\nfoo\r\n$3\r\nbar\r\n", 0).unwrap();
    assert_eq!(
        set,
        RedisCommand::Store(RedisStoreCommand::SetValue {
            key: b"foo".to_vec(),
            value: b"bar".to_vec(),
            px: None,
        })
    );
}

#[test]
fn parses_set_with_expiry_relative_to_now() {
    let set = parse_request(
        b"*5\r\n$3\r\nSET\r\n$3\r\nfoo\r\n$3\r\nbar\r\n$2\r\npx\r\n$3\r\n100\r\n",
        1000,
    )
    .unwrap();
    assert_eq!(
        set,
        RedisCommand::Store(RedisStoreCommand::SetValue {
            key: b"foo".to_vec(),
            value: b"bar".to_vec(),
            px: Some(1100),
        })
    );
}

#[test]
fn set_with_bad_expiry_number_keeps_no_expiry() {
    let set = parse_request(
        b"*5\r\n$3\r\nSET\r\n$3\r\nfoo\r\n$3\r\nbar\r\n$2\r\npx\r\n$3\r\nabc\r\n",
        1000,
    )
    .unwrap();
    assert_eq!(
        set,
        RedisCommand::Store(RedisStoreCommand::SetValue {
            key: b"foo".to_vec(),
            value: b"bar".to_vec(),
            px: None,
        })
    );
}

#[test]
fn parses_xadd_with_field_pairs() {
    let cmd = parse_request(
        b"*5\r\n$4\r\nXADD\r\n$1\r\ns\r\n$3\r\n1-1\r\n$1\r\na\r\n$1\r\nb\r\n",
        0,
    )
    .unwrap();
    assert_eq!(
        cmd,
        RedisCommand::Store(RedisStoreCommand::XAdd {
            key: b"s".to_vec(),
            entry_id: b"1-1".to_vec(),
            fields: vec![(b"a".to_vec(), b"b".to_vec())],
        })
    );
}

#[test]
fn xadd_with_dangling_field_is_refused() {
    let cmd = parse_request(
        b"*4\r\n$4\r\nXADD\r\n$1\r\ns\r\n$3\r\n1-1\r\n$1\r\na\r\n",
        0,
    );
    assert!(cmd.is_err());
}

#[test]
fn parses_replconf_sections() {
    let port = parse_request(
        b"*3\r\n$8\r\nREPLCONF\r\n$14\r\nlistening-port\r\n$4\r\n6380\r\n",
        0,
    )
    .unwrap();
    assert_eq!(
        port,
        RedisCommand::Replication(RedisReplicationCommand::ReplConf {
            section: ReplConfSection::Port { listening_port: 6380 },
        })
    );

    let getack = parse_request(b"*3\r\n$8\r\nREPLCONF\r\n$6\r\nGETACK\r\n$1\r\n*\r\n", 0).unwrap();
    assert!(getack.is_getack());

    let ack = parse_request(b"*3\r\n$8\r\nREPLCONF\r\n$3\r\nACK\r\n$2\r\n37\r\n", 0).unwrap();
    assert_eq!(
        ack,
        RedisCommand::Replication(RedisReplicationCommand::ReplConf {
            section: ReplConfSection::Ack { processed_bytes: 37 },
        })
    );
}

#[test]
fn parses_psync_and_wait() {
    let psync = parse_request(b"*3\r\n$5\r\nPSYNC\r\n$1\r\n?\r\n$2\r\n-1\r\n", 0).unwrap();
    assert_eq!(
        psync,
        RedisCommand::Replication(RedisReplicationCommand::PSync {
            replication_id: b"?".to_vec(),
            replication_offset: -1,
        })
    );

    let wait = parse_request(b"*3\r\n$4\r\nWAIT\r\n$1\r\n1\r\n$3\r\n500\r\n", 0).unwrap();
    assert_eq!(
        wait,
        RedisCommand::Replication(RedisReplicationCommand::Wait {
            num_replicas: 1,
            timeout: 500,
        })
    );
}

#[test]
fn parses_info_sections() {
    let replication = parse_request(b"*2\r\n$4\r\nINFO\r\n$11\r\nreplication\r\n", 0).unwrap();
    assert_eq!(
        replication,
        RedisCommand::Replication(RedisReplicationCommand::Info {
            section: InfoSection::Replication,
        })
    );
    let default = parse_request(b"*1\r\n$4\r\nINFO\r\n", 0).unwrap();
    assert_eq!(
        default,
        RedisCommand::Replication(RedisReplicationCommand::Info {
            section: InfoSection::Default,
        })
    );
}

#[test]
fn rejects_bad_requests() {
    // not an array of bulk strings
    assert_eq!(
        RedisCommand::try_from(RESPValue::SimpleString(b"PING".to_vec()), 0),
        Err(CommandError::NotAnArray)
    );
    // empty request
    assert_eq!(
        RedisCommand::try_from(RESPValue::Array(vec![]), 0),
        Err(CommandError::EmptyCommand)
    );
    // unknown command name
    assert_eq!(
        parse_request(b"*1\r\n$5\r\nhello\r\n", 0),
        Err(CommandError::UnknownCommand)
    );
    // missing argument
    assert_eq!(
        parse_request(b"*1\r\n$3\r\nGET\r\n", 0),
        Err(CommandError::MissingArgument)
    );
    // listening port out of range
    assert_eq!(
        parse_request(
            b"*3\r\n$8\r\nREPLCONF\r\n$14\r\nlistening-port\r\n$6\r\n700000\r\n",
            0
        ),
        Err(CommandError::InvalidArgument)
    );
}

#[test]
fn is_write_holds_only_for_set() {
    let set = RedisStoreCommand::SetValue {
        key: b"k".to_vec(),
        value: b"v".to_vec(),
        px: None,
    };
    assert!(set.is_write());
    let get = RedisStoreCommand::Get { key: b"k".to_vec() };
    assert!(!get.is_write());
}

#[test]
fn encodes_commands_for_replication() {
    let set = RedisCommand::Store(RedisStoreCommand::SetValue {
        key: b"foo".to_vec(),
        value: b"bar".to_vec(),
        px: None,
    });
    assert_eq!(
        set.to_bytes(0),
        b"*3\r\n$3\r\nSET\r\n$3\r\nfoo\r\n$3\r\nbar\r\n".to_vec()
    );
    let ping = RedisCommand::Server(RedisServerCommand::Ping);
    assert_eq!(ping.to_bytes(0), b"*1\r\n$4\r\nPING\r\n".to_vec());
}
