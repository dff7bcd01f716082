use redis_server::command::RedisCommand;
use redis_server::manager::{RedisManager, RedisCommandPacket, StepAction, StepError};
use redis_server::rdb::RDBConfig;
use redis_server::replication::{RedisReplicationMode, ReplicationError};
use redis_server::resp_stream::RESPStream;
use redis_server::store::RedisStore;

const REPL_ID: &[u8] = b"8371b4fb1155b71f4a04d3e1bc3e18c4a990aeeb";

fn primary_manager() -> RedisManager {
    RedisManager::new(
        RedisStore::new(),
        RedisReplicationMode::primary(REPL_ID.to_vec()),
        RDBConfig::new(b"./".to_vec(), b"dump.rdb".to_vec()),
    )
}

fn replica_manager(processed_bytes: u64) -> RedisManager {
    RedisManager::new(
        RedisStore::new(),
        RedisReplicationMode::Replica {
            primary_host: b"localhost".to_vec(),
            primary_port: 6379,
            processed_bytes,
        },
        RDBConfig::new(b"./".to_vec(), b"dump.rdb".to_vec()),
    )
}

fn request(manager: &mut RedisManager, client: u64, bytes: &[u8], now: u64) -> Result<StepAction, StepError> {
    let mut stream = RESPStream::new();
    stream.feed(&bytes.to_vec());
    stream.close();
    let value = stream.read_value().unwrap().unwrap();
    let command = RedisCommand::try_from(value, now).unwrap();
    manager.handle_packet(&RedisCommandPacket::new(client, command), now)
}

fn reply_bytes(action: StepAction) -> Vec<u8> {
    match action {
        StepAction::Reply { bytes } => bytes,
        StepAction::ReplyAndReplicate { bytes, .. } => bytes,
        StepAction::RegisterReplica { reply } => reply,
        StepAction::WaitImmediate { reply, .. } => reply,
        _ => panic!("expected an action that carries a reply"),
    }
}

#[test]
fn ping_answers_pong() {
    let mut manager = primary_manager();
    let action = request(&mut manager, 1, b"*1\r\n$4\r\nPING\r\n", 0).unwrap();
    assert_eq!(reply_bytes(action), b"+PONG\r\n".to_vec());
}

#[test]
fn set_then_get_round_trip_over_the_wire() {
    let mut manager = primary_manager();
    let set = request(
        &mut manager,
        1,
        b"*3\r\n$3\r\nSET\r\n$3\r\nfoo\r\n$3\r\nbar\r\n",
        0,
    )
    .unwrap();
    assert_eq!(reply_bytes(set), b"+OK\r\n".to_vec());
    let get = request(&mut manager, 1, b"*2\r\n$3\r\nGET\r\n$3\r\nfoo\r\n", 1).unwrap();
    assert_eq!(reply_bytes(get), b"$3\r\nbar\r\n".to_vec());
}

#[test]
fn expiry_reads_null_then_type_none() {
    let mut manager = primary_manager();
    let set = request(
        &mut manager,
        1,
        b"*5\r\n$3\r\nSET\r\n$3\r\nfoo\r\n$3\r\nbar\r\n$2\r\npx\r\n$3\r\n100\r\n",
        1000,
    )
    .unwrap();
    assert_eq!(reply_bytes(set), b"+OK\r\n".to_vec());
    // two hundred milliseconds later the key has expired
    let get = request(&mut manager, 1, b"*2\r\n$3\r\nGET\r\n$3\r\nfoo\r\n", 1200).unwrap();
    assert_eq!(reply_bytes(get), b"$-1\r\n".to_vec());
    let ty = request(&mut manager, 1, b"*2\r\n$4\r\nTYPE\r\n$3\r\nfoo\r\n", 1200).unwrap();
    assert_eq!(reply_bytes(ty), b"+none\r\n".to_vec());
}

#[test]
fn info_replication_on_primary() {
    let mut manager = primary_manager();
    let action = request(
        &mut manager,
        1,
        b"*2\r\n$4\r\nINFO\r\n$11\r\nreplication\r\n",
        0,
    )
    .unwrap();
    let bytes = reply_bytes(action);
    let mut payload = b"role:master\nmaster_replid:".to_vec();
    payload.extend_from_slice(REPL_ID);
    payload.extend_from_slice(b"\nmaster_repl_offset:0");
    let mut expected = format!("${}\r\n", payload.len()).into_bytes();
    expected.extend_from_slice(&payload);
    expected.extend_from_slice(b"\r\n");
    assert_eq!(bytes, expected);
}

#[test]
fn info_replication_on_replica_names_the_slave_role() {
    let mut manager = replica_manager(0);
    let action = request(
        &mut manager,
        1,
        b"*2\r\n$4\r\nINFO\r\n$11\r\nreplication\r\n",
        0,
    )
    .unwrap();
    assert_eq!(reply_bytes(action), b"$10\r\nrole:slave\r\n".to_vec());
}

#[test]
fn handshake_accept_on_primary() {
    let mut manager = primary_manager();
    let pong = request(&mut manager, 7, b"*1\r\n$4\r\nPING\r\n", 0).unwrap();
    assert_eq!(reply_bytes(pong), b"+PONG\r\n".to_vec());
    let port_ok = request(
        &mut manager,
        7,
        b"*3\r\n$8\r\nREPLCONF\r\n$14\r\nlistening-port\r\n$4\r\n6380\r\n",
        0,
    )
    .unwrap();
    assert_eq!(reply_bytes(port_ok), b"+OK\r\n".to_vec());
    let capa_ok = request(
        &mut manager,
        7,
        b"*3\r\n$8\r\nREPLCONF\r\n$4\r\ncapa\r\n$6\r\npsync2\r\n",
        0,
    )
    .unwrap();
    assert_eq!(reply_bytes(capa_ok), b"+OK\r\n".to_vec());
    let psync = request(&mut manager, 7, b"*3\r\n$5\r\nPSYNC\r\n$1\r\n?\r\n$2\r\n-1\r\n", 0).unwrap();
    match psync {
        StepAction::RegisterReplica { reply } => {
            let mut expected = b"+FULLRESYNC ".to_vec();
            expected.extend_from_slice(REPL_ID);
            expected.extend_from_slice(b" 0\r\n$88\r\n");
            assert_eq!(&reply[..expected.len()], &expected[..]);
            // the snapshot is the advertised 88 bytes with no trailing
            // line terminator
            assert_eq!(reply.len(), expected.len() + 88);
            assert_eq!(&reply[expected.len()..expected.len() + 9], b"REDIS0011");
        }
        _ => panic!("expected the connection to become a replica"),
    }
}

#[test]
fn wait_zero_replicas_required_answers_immediately() {
    let mut manager = primary_manager();
    // attach one replica that has acknowledged nothing
    request(&mut manager, 7, b"*3\r\n$5\r\nPSYNC\r\n$1\r\n?\r\n$2\r\n-1\r\n", 0).unwrap();
    let action = request(&mut manager, 1, b"*3\r\n$4\r\nWAIT\r\n$1\r\n0\r\n$1\r\n0\r\n", 0).unwrap();
    match action {
        StepAction::WaitImmediate { count, reply } => {
            assert_eq!(count, 1);
            assert_eq!(reply, b":1\r\n".to_vec());
        }
        _ => panic!("expected an immediate answer"),
    }
}

#[test]
fn wait_with_no_replicas_answers_zero_immediately() {
    let mut manager = primary_manager();
    let action = request(&mut manager, 1, b"*3\r\n$4\r\nWAIT\r\n$1\r\n3\r\n$1\r\n0\r\n", 0).unwrap();
    match action {
        StepAction::WaitImmediate { count, reply } => {
            assert_eq!(count, 0);
            assert_eq!(reply, b":0\r\n".to_vec());
        }
        _ => panic!("expected an immediate answer"),
    }
}

#[test]
fn wait_with_in_sync_replica_answers_immediately() {
    let mut manager = primary_manager();
    request(&mut manager, 7, b"*3\r\n$5\r\nPSYNC\r\n$1\r\n?\r\n$2\r\n-1\r\n", 0).unwrap();
    // a write raises replicated_bytes to the length of the fanned-out
    // command encoding
    let set = request(
        &mut manager,
        1,
        b"*3\r\n$3\r\nSET\r\n$3\r\nfoo\r\n$3\r\nbar\r\n",
        0,
    )
    .unwrap();
    let replicated = match set {
        StepAction::ReplyAndReplicate { payload, targets, .. } => {
            assert_eq!(targets, vec![7]);
            payload.len() as u64
        }
        _ => panic!("expected the write to be fanned out"),
    };
    // the replica acknowledges everything that was replicated
    let ack_line = format!(
        "*3\r\n$8\r\nREPLCONF\r\n$3\r\nACK\r\n${}\r\n{}\r\n",
        replicated.to_string().len(),
        replicated
    );
    let ack = request(&mut manager, 7, ack_line.as_bytes(), 0).unwrap();
    assert!(matches!(ack, StepAction::NoReply));
    let action = request(&mut manager, 1, b"*3\r\n$4\r\nWAIT\r\n$1\r\n1\r\n$3\r\n500\r\n", 0).unwrap();
    match action {
        StepAction::WaitImmediate { count, reply } => {
            assert_eq!(count, 1);
            assert_eq!(reply, b":1\r\n".to_vec());
        }
        _ => panic!("expected an immediate answer"),
    }
}

#[test]
fn wait_with_lagging_replica_probes() {
    let mut manager = primary_manager();
    request(&mut manager, 7, b"*3\r\n$5\r\nPSYNC\r\n$1\r\n?\r\n$2\r\n-1\r\n", 0).unwrap();
    let set = request(
        &mut manager,
        1,
        b"*3\r\n$3\r\nSET\r\n$3\r\nfoo\r\n$3\r\nbar\r\n",
        0,
    )
    .unwrap();
    let replicated = match set {
        StepAction::ReplyAndReplicate { payload, .. } => payload.len() as u64,
        _ => panic!("expected the write to be fanned out"),
    };
    let action = request(&mut manager, 1, b"*3\r\n$4\r\nWAIT\r\n$1\r\n1\r\n$3\r\n100\r\n", 0).unwrap();
    match action {
        StepAction::WaitProbe { probe, expected, base_count, threshold, timeout, targets } => {
            assert_eq!(probe, b"*3\r\n$8\r\nREPLCONF\r\n$6\r\nGETACK\r\n$1\r\n*\r\n".to_vec());
            // a replica that was fully caught up before the probe will
            // acknowledge exactly the pre-probe byte count
            assert_eq!(expected, replicated);
            assert_eq!(base_count, 0);
            assert_eq!(threshold, 1);
            assert_eq!(timeout, 100);
            assert_eq!(targets, vec![7]);
        }
        _ => panic!("expected a probe"),
    }
}

#[test]
fn replica_answers_getack_with_processed_bytes() {
    let mut manager = replica_manager(37);
    let action = request(
        &mut manager,
        u64::MAX,
        b"*3\r\n$8\r\nREPLCONF\r\n$6\r\nGETACK\r\n$1\r\n*\r\n",
        0,
    )
    .unwrap();
    assert_eq!(
        reply_bytes(action),
        b"*3\r\n$8\r\nREPLCONF\r\n$3\r\nACK\r\n$2\r\n37\r\n".to_vec()
    );
}

#[test]
fn replica_accounts_for_applied_commands() {
    let mut manager = replica_manager(0);
    // a primary-originated write is applied silently; afterwards the
    // replica has consumed the command's encoded length
    let set = request(
        &mut manager,
        u64::MAX,
        b"*3\r\n$3\r\nSET\r\n$3\r\nfoo\r\n$3\r\nbar\r\n",
        0,
    )
    .unwrap();
    assert!(matches!(set, StepAction::ReplyAndReplicate { .. }));
    match &manager.replication.replication_mode {
        RedisReplicationMode::Replica { processed_bytes, .. } => {
            assert_eq!(*processed_bytes, 31);
        }
        _ => panic!("expected a replica"),
    }
}

#[test]
fn commands_in_the_wrong_role_are_refused() {
    let mut primary = primary_manager();
    let getack = request(
        &mut primary,
        1,
        b"*3\r\n$8\r\nREPLCONF\r\n$6\r\nGETACK\r\n$1\r\n*\r\n",
        0,
    );
    assert!(matches!(
        getack,
        Err(StepError::Replication(ReplicationError::NotReplica))
    ));

    let mut replica = replica_manager(0);
    let psync = request(&mut replica, 1, b"*3\r\n$5\r\nPSYNC\r\n$1\r\n?\r\n$2\r\n-1\r\n", 0);
    assert!(matches!(
        psync,
        Err(StepError::Replication(ReplicationError::NotPrimary))
    ));

    let ack = request(&mut primary, 9, b"*3\r\n$8\r\nREPLCONF\r\n$3\r\nACK\r\n$2\r\n10\r\n", 0);
    assert!(matches!(
        ack,
        Err(StepError::Replication(ReplicationError::UnknownReplica))
    ));
}

#[test]
fn config_get_answers_dir_and_dbfilename() {
    let mut manager = primary_manager();
    let action = request(
        &mut manager,
        1,
        b"*3\r\n$6\r\nCONFIG\r\n$3\r\nGET\r\n$3\r\ndir\r\n",
        0,
    )
    .unwrap();
    assert_eq!(
        reply_bytes(action),
        b"*2\r\n$3\r\ndir\r\n$2\r\n./\r\n".to_vec()
    );
    let unknown = request(
        &mut manager,
        1,
        b"*3\r\n$6\r\nCONFIG\r\n$3\r\nGET\r\n$4\r\nnope\r\n",
        0,
    );
    assert!(matches!(unknown, Err(StepError::UnknownConfigKey)));
}

#[test]
fn echo_answers_the_message() {
    let mut manager = primary_manager();
    let action = request(&mut manager, 1, b"*2\r\n$4\r\nECHO\r\n$5\r\nhello\r\n", 0).unwrap();
    assert_eq!(reply_bytes(action), b"$5\r\nhello\r\n".to_vec());
}

#[test]
fn replica_does_not_count_ordinary_client_commands() {
    let mut manager = replica_manager(0);
    // the same write, but from an ordinary client, not the primary link
    let set = request(
        &mut manager,
        1,
        b"*3\r\n$3\r\nSET\r\n$3\r\nfoo\r\n$3\r\nbar\r\n",
        0,
    )
    .unwrap();
    assert!(matches!(set, StepAction::ReplyAndReplicate { .. }));
    match &manager.replication.replication_mode {
        RedisReplicationMode::Replica { processed_bytes, .. } => {
            assert_eq!(*processed_bytes, 0);
        }
        _ => panic!("expected a replica"),
    }
}
