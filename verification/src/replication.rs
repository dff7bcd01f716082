//! Replication state and its transitions.
//!
//! A primary keeps, for every attached replica, the byte count the replica
//! has acknowledged, and a ghost record of every byte it has handed out
//! for replication since boot (the log). The invariant `wf` ties them
//! together: `replicated_bytes` is the log's length, and what has been
//! submitted for each replica since it joined is exactly the log's suffix
//! from its join point — every replica's stream is a suffix of the log.
//! A replica keeps the byte count of the commands it has consumed from
//! its primary.

use vstd::prelude::*;

use crate::command::{
    RedisCommand, RedisReplicationCommand, ReplConfSection, InfoSection, view_command,
};
use crate::decimal::{dec_rep, fmt_u64};
use crate::encoding::{command_wire, replconf_get_ack, replconf_ack, wire};
use crate::keywords::{
    spec_lit_role_master_prefix, spec_lit_repl_offset_prefix, spec_lit_role_slave,
    spec_lit_fullresync_prefix, spec_lit_space, spec_lit_ok, spec_lit_replconf_upper,
    spec_lit_getack_upper, spec_lit_ack_upper, spec_lit_star,
    lit_role_master_prefix, lit_repl_offset_prefix, lit_role_slave, lit_fullresync_prefix,
    lit_space, lit_ok,
};
use crate::rdb::{spec_empty_rdb, empty_rdb};
use crate::resp::{RESPValue, ValueModel, encoding, view_value, crlf};

verus! {

/// The acknowledged byte count a replica last reported.
pub struct Acker {
    pub acked_bytes: u64,
}

impl Acker {
    pub fn new(acked_bytes: u64) -> (r: Self)
        ensures
            r.acked_bytes == acked_bytes,
    {
        Acker { acked_bytes }
    }

    pub fn get_bytes(&self) -> (r: u64)
        ensures
            r == self.acked_bytes,
    {
        self.acked_bytes
    }

    pub fn ack(&mut self, bytes: u64)
        ensures
            final(self).acked_bytes == bytes,
    {
        self.acked_bytes = bytes;
    }
}

pub struct ReplicaInfo {
    pub id: u64,
    pub acker: Acker,
    /// The primary's `replicated_bytes` when this replica joined.
    pub joined_at: u64,
    /// Every byte submitted to this replica's connection since it joined,
    /// after the handshake preamble.
    pub sent: Ghost<Seq<u8>>,
}

impl ReplicaInfo {
    /// The replica's stream is the log's suffix from its join point.
    pub open spec fn wf_in(&self, log: Seq<u8>) -> bool {
        &&& self.joined_at <= log.len()
        &&& self.sent@ =~= log.skip(self.joined_at as int)
    }
}

pub enum RedisReplicationMode {
    Primary {
        replication_id: Vec<u8>,
        replication_offset: u64,
        replicas: Vec<ReplicaInfo>,
        replicated_bytes: u64,
        /// Every byte handed out for replication since boot: the RESP
        /// encodings of the replicated writes and of the probes.
        log: Ghost<Seq<u8>>,
    },
    Replica {
        primary_host: Vec<u8>,
        primary_port: u16,
        processed_bytes: u64,
    },
}

impl RedisReplicationMode {
    pub fn primary(replication_id: Vec<u8>) -> (r: Self)
        ensures
            r matches RedisReplicationMode::Primary {
                replication_id: rid,
                replication_offset,
                replicas,
                replicated_bytes,
                log,
            } && rid == replication_id && replication_offset == 0 && replicas@.len() == 0
                && replicated_bytes == 0 && log@ =~= Seq::<u8>::empty(),
    {
        RedisReplicationMode::Primary {
            replication_id,
            replication_offset: 0,
            replicas: Vec::new(),
            replicated_bytes: 0,
            log: Ghost(Seq::empty()),
        }
    }

    pub fn replica(primary_host: Vec<u8>, primary_port: u16) -> (r: Self)
        ensures
            r == (RedisReplicationMode::Replica { primary_host, primary_port, processed_bytes: 0u64 }),
    {
        RedisReplicationMode::Replica { primary_host, primary_port, processed_bytes: 0 }
    }
}

/// How many replicas have acknowledged exactly `target` bytes.
pub open spec fn count_synced(rs: Seq<ReplicaInfo>, target: u64) -> int
    decreases rs.len(),
{
    if rs.len() == 0 {
        0
    } else {
        count_synced(rs.drop_last(), target) + (if rs.last().acker.acked_bytes == target {
            1int
        } else {
            0int
        })
    }
}

pub proof fn lemma_count_synced_bounds(rs: Seq<ReplicaInfo>, target: u64)
    ensures
        0 <= count_synced(rs, target) <= rs.len(),
    decreases rs.len(),
{
    if rs.len() > 0 {
        lemma_count_synced_bounds(rs.drop_last(), target);
    }
}

/// The identifiers of the replicas, in registration order.
pub open spec fn ids_of(rs: Seq<ReplicaInfo>) -> Seq<u64> {
    rs.map_values(|r: ReplicaInfo| r.id)
}

/// The `INFO replication` payload.
pub open spec fn info_payload(mode: RedisReplicationMode) -> Seq<u8> {
    match mode {
        RedisReplicationMode::Primary { replication_id, replication_offset, .. } => {
            spec_lit_role_master_prefix() + replication_id@ + spec_lit_repl_offset_prefix()
                + dec_rep(replication_offset as nat)
        },
        RedisReplicationMode::Replica { .. } => spec_lit_role_slave(),
    }
}

/// The bytes a primary sends back to `PSYNC`: a `FULLRESYNC` line naming
/// its replication id and offset, then the empty snapshot behind a bulk
/// length prefix with no trailing line terminator.
pub open spec fn psync_reply(replication_id: Seq<u8>, offset: nat) -> Seq<u8> {
    encoding(
        ValueModel::SimpleString(
            spec_lit_fullresync_prefix() + replication_id + spec_lit_space() + dec_rep(offset),
        ),
    ) + seq![36u8] + dec_rep(spec_empty_rdb().len()) + crlf() + spec_empty_rdb()
}

/// The probe bytes `REPLCONF GETACK *`.
pub open spec fn getack_wire() -> Seq<u8> {
    wire(seq![spec_lit_replconf_upper(), spec_lit_getack_upper(), spec_lit_star()])
}

/// Why a replication command was refused.
#[derive(Debug, PartialEq, Eq, Clone, Copy)]
pub enum ReplicationError {
    NotPrimary,
    NotReplica,
    UnknownReplica,
}

/// What the caller must do after a replication command was applied.
pub enum ReplicationAction {
    /// Write these bytes to the requesting client.
    Reply { bytes: Vec<u8> },
    /// Write these bytes to the client and treat its connection as a
    /// replica connection from now on.
    RegisterReplica { reply: Vec<u8> },
    /// Nothing to write.
    NoReply,
    /// `WAIT` was answerable at once: write the counter reply.
    WaitImmediate { count: u64, reply: Vec<u8> },
    /// `WAIT` must probe: block the client, send `probe` to every replica
    /// named in `targets`, and within `timeout` milliseconds count the
    /// replicas whose next acknowledgement equals `expected`, starting
    /// from `base_count`; `threshold` many suffice to stop early.
    WaitProbe {
        probe: Vec<u8>,
        expected: u64,
        base_count: u64,
        threshold: u64,
        timeout: u64,
        targets: Vec<u64>,
    },
}

pub struct RedisReplication {
    pub replication_mode: RedisReplicationMode,
}

impl RedisReplication {
    pub open spec fn wf(&self) -> bool {
        match self.replication_mode {
            RedisReplicationMode::Primary { replicas, replicated_bytes, log, .. } => {
                &&& replicated_bytes == log@.len()
                &&& (forall|i: int|
                    0 <= i < replicas@.len() ==> (#[trigger] replicas@[i]).wf_in(log@))
                &&& (forall|i: int, j: int|
                    0 <= i < j < replicas@.len() ==> (#[trigger] replicas@[i]).id != (
                    #[trigger] replicas@[j]).id)
            },
            RedisReplicationMode::Replica { .. } => true,
        }
    }

    pub fn new(replication_mode: RedisReplicationMode) -> (r: Self)
        requires
            (RedisReplication { replication_mode }).wf(),
        ensures
            r.replication_mode == replication_mode,
            r.wf(),
    {
        RedisReplication { replication_mode }
    }

    /// Hands `bytes` out for replication: on a primary the log grows by
    /// exactly these bytes, the counter follows, and every attached
    /// replica is to receive them; on a replica nothing happens.
    pub fn try_replicate(&mut self, bytes: &Vec<u8>) -> (targets: Vec<u64>)
        requires
            old(self).wf(),
            old(self).replication_mode matches RedisReplicationMode::Primary {
                replicated_bytes,
                ..
            } ==> replicated_bytes + bytes@.len() <= u64::MAX,
        ensures
            final(self).wf(),
            match old(self).replication_mode {
                RedisReplicationMode::Primary {
                    replication_id,
                    replication_offset,
                    replicas,
                    replicated_bytes,
                    log,
                } => {
                    &&& final(self).replication_mode matches RedisReplicationMode::Primary {
                        replication_id: rid2,
                        replication_offset: off2,
                        replicas: rs2,
                        replicated_bytes: rb2,
                        log: log2,
                    }
                    &&& rid2 == replication_id
                    &&& off2 == replication_offset
                    &&& rb2 == replicated_bytes + bytes@.len()
                    &&& log2@ =~= log@ + bytes@
                    &&& rs2@.len() == replicas@.len()
                    &&& (forall|i: int|
                        0 <= i < replicas@.len() ==> {
                            let r0 = #[trigger] replicas@[i];
                            let r2 = rs2@[i];
                            r2.id == r0.id && r2.acker == r0.acker && r2.joined_at == r0.joined_at
                                && r2.sent@ =~= r0.sent@ + bytes@
                        })
                    &&& targets@ =~= ids_of(replicas@)
                },
                RedisReplicationMode::Replica { .. } => {
                    &&& *final(self) == *old(self)
                    &&& targets@.len() == 0
                },
            },
    {
        match &mut self.replication_mode {
            RedisReplicationMode::Primary { replicas, replicated_bytes, log, .. } => {
                let ghost log_old = log@;
                let ghost rs_old = replicas@;
                *replicated_bytes = *replicated_bytes + bytes.len() as u64;
                proof {
                    *log = Ghost(log@ + bytes@);
                }
                let mut targets: Vec<u64> = Vec::new();
                let mut i: usize = 0;
                while i < replicas.len()
                    invariant
                        i <= replicas@.len(),
                        replicas@.len() == rs_old.len(),
                        forall|j: int|
                            i <= j < rs_old.len() ==> #[trigger] replicas@[j] == rs_old[j],
                        forall|j: int|
                            0 <= j < i ==> {
                                let r0 = #[trigger] rs_old[j];
                                let r2 = replicas@[j];
                                r2.id == r0.id && r2.acker == r0.acker && r2.joined_at
                                    == r0.joined_at && r2.sent@ =~= r0.sent@ + bytes@
                            },
                        targets@ =~= ids_of(rs_old).subrange(0, i as int),
                    decreases replicas@.len() - i,
                {
                    let r = vstd::std_specs::vec::vec_index_mut(replicas, i);
                    targets.push(r.id);
                    proof {
                        r.sent = Ghost(r.sent@ + bytes@);
                    }
                    i = i + 1;
                    proof {
                        assert(targets@ =~= ids_of(rs_old).subrange(0, i as int));
                    }
                }
                proof {
                    assert(ids_of(rs_old).subrange(0, rs_old.len() as int) =~= ids_of(rs_old));
                    assert(log@ =~= log_old + bytes@);
                    assert forall|j: int|
                        0 <= j < replicas@.len() implies (#[trigger] replicas@[j]).wf_in(log@) by {
                        assert(rs_old[j].wf_in(log_old));
                        assert(replicas@[j].sent@ =~= rs_old[j].sent@ + bytes@);
                        assert((log_old + bytes@).skip(rs_old[j].joined_at as int) =~= log_old.skip(
                            rs_old[j].joined_at as int,
                        ) + bytes@);
                    }
                    assert forall|a: int, b: int|
                        0 <= a < b < replicas@.len() implies (#[trigger] replicas@[a]).id != (
                    #[trigger] replicas@[b]).id by {
                        assert(replicas@[a].id == rs_old[a].id);
                        assert(replicas@[b].id == rs_old[b].id);
                    }
                }
                targets
            },
            RedisReplicationMode::Replica { .. } => {
                Vec::new()
            },
        }
    }

    /// After a replica applies any command from its primary, its consumed
    /// byte count grows by the length of that command's wire form.
    pub fn post_command_hook(&mut self, command: &RedisCommand, now_millis: u64)
        requires
            old(self).wf(),
            old(self).replication_mode matches RedisReplicationMode::Replica {
                processed_bytes,
                ..
            } ==> processed_bytes + command_wire(view_command(*command), now_millis as int).len()
                <= u64::MAX,
        ensures
            final(self).wf(),
            match old(self).replication_mode {
                RedisReplicationMode::Replica { primary_host, primary_port, processed_bytes } => {
                    final(self).replication_mode == (RedisReplicationMode::Replica {
                        primary_host,
                        primary_port,
                        processed_bytes: (processed_bytes + command_wire(
                            view_command(*command),
                            now_millis as int,
                        ).len()) as u64,
                    })
                },
                RedisReplicationMode::Primary { .. } => *final(self) == *old(self),
            },
    {
        match &mut self.replication_mode {
            RedisReplicationMode::Replica { processed_bytes, .. } => {
                let bytes = command.to_bytes(now_millis);
                *processed_bytes = *processed_bytes + bytes.len() as u64;
            },
            RedisReplicationMode::Primary { .. } => {},
        }
    }
}


/// The bytes of the `+OK` reply line.
pub open spec fn ok_wire() -> Seq<u8> {
    encoding(ValueModel::SimpleString(spec_lit_ok()))
}

/// Index of the replica with this identifier, if any.
fn find_replica(replicas: &Vec<ReplicaInfo>, id: u64) -> (r: Option<usize>)
    ensures
        match r {
            Some(i) => i < replicas@.len() && replicas@[i as int].id == id,
            None => forall|j: int| 0 <= j < replicas@.len() ==> (#[trigger] replicas@[j]).id != id,
        },
{
    let mut i: usize = 0;
    while i < replicas.len()
        invariant
            i <= replicas@.len(),
            forall|j: int| 0 <= j < i ==> (#[trigger] replicas@[j]).id != id,
        decreases replicas@.len() - i,
    {
        if replicas[i].id == id {
            return Some(i);
        }
        i = i + 1;
    }
    None
}

/// The replicas left after taking out every entry with this identifier.
pub open spec fn remove_id(rs: Seq<ReplicaInfo>, id: u64) -> Seq<ReplicaInfo>
    decreases rs.len(),
{
    if rs.len() == 0 {
        rs
    } else if rs.last().id == id {
        remove_id(rs.drop_last(), id)
    } else {
        remove_id(rs.drop_last(), id).push(rs.last())
    }
}

impl RedisReplication {
    /// The `INFO` reply: the node's role, and on a primary its
    /// replication id and offset.
    pub fn info(&self, section: InfoSection) -> (r: RESPValue)
        ensures
            view_value(r) == ValueModel::BulkString(info_payload(self.replication_mode)),
    {
        match &self.replication_mode {
            RedisReplicationMode::Primary { replication_id, replication_offset, .. } => {
                let mut payload = lit_role_master_prefix();
                payload.extend_from_slice(replication_id.as_slice());
                let mid = lit_repl_offset_prefix();
                payload.extend_from_slice(mid.as_slice());
                let digits = fmt_u64(*replication_offset);
                payload.extend_from_slice(digits.as_slice());
                proof {
                    assert(payload@ =~= info_payload(self.replication_mode));
                }
                RESPValue::BulkString(payload)
            },
            RedisReplicationMode::Replica { .. } => {
                RESPValue::BulkString(lit_role_slave())
            },
        }
    }

    /// `REPLCONF listening-port` is acknowledged with `+OK`.
    pub fn repl_conf_port(&self) -> (r: Vec<u8>)
        ensures
            r@ =~= ok_wire(),
    {
        let v = RESPValue::SimpleString(lit_ok());
        crate::resp::encode(&v)
    }

    /// `REPLCONF capa` is acknowledged with `+OK`.
    pub fn repl_conf_capa(&self) -> (r: Vec<u8>)
        ensures
            r@ =~= ok_wire(),
    {
        let v = RESPValue::SimpleString(lit_ok());
        crate::resp::encode(&v)
    }

    /// `PSYNC` on a primary: answers with the full-resynchronization
    /// header and the empty snapshot, and registers the requesting client
    /// as a replica with nothing acknowledged; anywhere else it is an
    /// error and changes nothing.
    pub fn psync(&mut self, client_id: u64) -> (r: Result<Vec<u8>, ReplicationError>)
        requires
            old(self).wf(),
        ensures
            final(self).wf(),
            match old(self).replication_mode {
                RedisReplicationMode::Primary {
                    replication_id,
                    replication_offset,
                    replicas,
                    replicated_bytes,
                    log,
                } => {
                    &&& (r matches Ok(reply) && reply@ =~= psync_reply(
                        replication_id@,
                        replication_offset as nat,
                    ))
                    &&& final(self).replication_mode matches RedisReplicationMode::Primary {
                        replication_id: rid2,
                        replication_offset: off2,
                        replicas: rs2,
                        replicated_bytes: rb2,
                        log: log2,
                    }
                    &&& rid2 == replication_id
                    &&& off2 == replication_offset
                    &&& rb2 == replicated_bytes
                    &&& log2@ =~= log@
                    &&& rs2@ =~= remove_id(replicas@, client_id).push(rs2@.last())
                    &&& rs2@.last().id == client_id
                    &&& rs2@.last().acker.acked_bytes == 0
                    &&& rs2@.last().joined_at == replicated_bytes
                    &&& rs2@.last().sent@ =~= Seq::<u8>::empty()
                },
                RedisReplicationMode::Replica { .. } => {
                    &&& r == Err::<Vec<u8>, ReplicationError>(ReplicationError::NotPrimary)
                    &&& *final(self) == *old(self)
                },
            },
    {
        let mut found_idx: Option<usize> = None;
        match &self.replication_mode {
            RedisReplicationMode::Primary { replicas, .. } => {
                found_idx = find_replica(replicas, client_id);
            },
            RedisReplicationMode::Replica { .. } => {},
        }
        match &mut self.replication_mode {
            RedisReplicationMode::Primary {
                replication_id,
                replication_offset,
                replicas,
                replicated_bytes,
                log,
            } => {
                let ghost rs_old = replicas@;
                let mut line = lit_fullresync_prefix();
                line.extend_from_slice(replication_id.as_slice());
                let space = lit_space();
                line.extend_from_slice(space.as_slice());
                let digits = fmt_u64(*replication_offset);
                line.extend_from_slice(digits.as_slice());
                let head = RESPValue::SimpleString(line);
                let mut reply = crate::resp::encode(&head);
                reply.push(36u8);
                let rdb = empty_rdb();
                let len_digits = fmt_u64(rdb.len() as u64);
                reply.extend_from_slice(len_digits.as_slice());
                reply.push(13u8);
                reply.push(10u8);
                reply.extend_from_slice(rdb.as_slice());
                proof {
                    assert(reply@ =~= psync_reply(replication_id@, *replication_offset as nat));
                }
                // drop any stale registration under the same identifier
                match found_idx {
                    Some(at) => {
                        let _ = replicas.remove(at);
                        proof {
                            lemma_remove_id_found(rs_old, client_id, at as int);
                        }
                    },
                    None => {
                        proof {
                            lemma_remove_id_absent(rs_old, client_id);
                        }
                    },
                }
                let ghost mid = replicas@;
                replicas.push(
                    ReplicaInfo {
                        id: client_id,
                        acker: Acker { acked_bytes: 0 },
                        joined_at: *replicated_bytes,
                        sent: Ghost(log@.skip(log@.len() as int)),
                    },
                );
                proof {
                    assert(replicas@.drop_last() =~= mid);
                    assert(log@.skip(log@.len() as int) =~= Seq::<u8>::empty());
                    lemma_remove_id_wf(rs_old, client_id, log@);
                    assert forall|a: int, b: int|
                        0 <= a < b < replicas@.len() implies (#[trigger] replicas@[a]).id != (
                    #[trigger] replicas@[b]).id by {
                        if b < replicas@.len() - 1 {
                            assert(replicas@[a] == mid[a]);
                            assert(replicas@[b] == mid[b]);
                        } else {
                            assert(replicas@[a] == mid[a]);
                            lemma_remove_id_no_id(rs_old, client_id);
                        }
                    }
                }
                Ok(reply)
            },
            RedisReplicationMode::Replica { .. } => Err(ReplicationError::NotPrimary),
        }
    }

    /// `REPLCONF GETACK *` on a replica: the only primary-originated
    /// command that is answered, with `REPLCONF ACK <processed_bytes>`.
    pub fn getack(&self) -> (r: Result<Vec<u8>, ReplicationError>)
        ensures
            match self.replication_mode {
                RedisReplicationMode::Replica { processed_bytes, .. } => r matches Ok(bytes)
                    && bytes@ =~= wire(
                    seq![
                        spec_lit_replconf_upper(),
                        spec_lit_ack_upper(),
                        dec_rep(processed_bytes as nat),
                    ],
                ),
                RedisReplicationMode::Primary { .. } => r == Err::<Vec<u8>, ReplicationError>(
                    ReplicationError::NotReplica,
                ),
            },
    {
        match &self.replication_mode {
            RedisReplicationMode::Replica { processed_bytes, .. } => {
                Ok(replconf_ack(*processed_bytes))
            },
            RedisReplicationMode::Primary { .. } => Err(ReplicationError::NotReplica),
        }
    }

    /// `REPLCONF ACK <n>` from a replica updates that replica's
    /// acknowledged byte count; the replica must be known.
    pub fn ack(&mut self, id: u64, processed_bytes: u64) -> (r: Result<(), ReplicationError>)
        requires
            old(self).wf(),
        ensures
            final(self).wf(),
            match old(self).replication_mode {
                RedisReplicationMode::Primary {
                    replication_id,
                    replication_offset,
                    replicas,
                    replicated_bytes,
                    log,
                } => {
                    if exists|j: int| 0 <= j < replicas@.len() && (#[trigger] replicas@[j]).id
                        == id {
                        &&& r is Ok
                        &&& final(self).replication_mode matches RedisReplicationMode::Primary {
                            replicas: rs2,
                            replication_id: rid2,
                            replication_offset: off2,
                            replicated_bytes: rb2,
                            log: log2,
                        }
                        &&& rid2 == replication_id
                        &&& off2 == replication_offset
                        &&& rb2 == replicated_bytes
                        &&& log2@ =~= log@
                        &&& exists|j: int|
                            0 <= j < replicas@.len() && (#[trigger] replicas@[j]).id == id
                                && rs2@ =~= replicas@.update(
                                j,
                                ReplicaInfo {
                                    acker: Acker { acked_bytes: processed_bytes },
                                    ..replicas@[j]
                                },
                            )
                    } else {
                        &&& r == Err::<(), ReplicationError>(ReplicationError::UnknownReplica)
                        &&& *final(self) == *old(self)
                    }
                },
                RedisReplicationMode::Replica { .. } => {
                    &&& r == Err::<(), ReplicationError>(ReplicationError::NotPrimary)
                    &&& *final(self) == *old(self)
                },
            },
    {
        let mut found_idx: Option<usize> = None;
        match &self.replication_mode {
            RedisReplicationMode::Primary { replicas, .. } => {
                found_idx = find_replica(replicas, id);
            },
            RedisReplicationMode::Replica { .. } => {},
        }
        match &mut self.replication_mode {
            RedisReplicationMode::Primary { replicas, log, .. } => {
                let ghost rs_old = replicas@;
                match found_idx {
                    Some(i) => {
                        let r = vstd::std_specs::vec::vec_index_mut(replicas, i);
                        r.acker.ack(processed_bytes);
                        proof {
                            assert(replicas@ =~= rs_old.update(
                                i as int,
                                ReplicaInfo {
                                    acker: Acker { acked_bytes: processed_bytes },
                                    ..rs_old[i as int]
                                },
                            ));
                            assert forall|a: int, b: int|
                                0 <= a < b < replicas@.len() implies (
                            #[trigger] replicas@[a]).id != (#[trigger] replicas@[b]).id by {
                                assert(replicas@[a].id == rs_old[a].id);
                                assert(replicas@[b].id == rs_old[b].id);
                            }
                            assert forall|j: int|
                                0 <= j < replicas@.len() implies (
                            #[trigger] replicas@[j]).wf_in(log@) by {
                                assert(rs_old[j].wf_in(log@));
                            }
                        }
                        Ok(())
                    },
                    None => Err(ReplicationError::UnknownReplica),
                }
            },
            RedisReplicationMode::Replica { .. } => Err(ReplicationError::NotPrimary),
        }
    }
}

proof fn lemma_remove_id_absent(rs: Seq<ReplicaInfo>, id: u64)
    requires
        forall|j: int| 0 <= j < rs.len() ==> (#[trigger] rs[j]).id != id,
    ensures
        remove_id(rs, id) =~= rs,
    decreases rs.len(),
{
    if rs.len() > 0 {
        lemma_remove_id_absent(rs.drop_last(), id);
        assert(remove_id(rs, id) =~= rs.drop_last().push(rs.last()));
        assert(rs.drop_last().push(rs.last()) =~= rs);
    }
}

proof fn lemma_remove_id_found(rs: Seq<ReplicaInfo>, id: u64, at: int)
    requires
        0 <= at < rs.len(),
        rs[at].id == id,
        forall|j: int| 0 <= j < at ==> (#[trigger] rs[j]).id != id,
        forall|i: int, j: int|
            0 <= i < j < rs.len() ==> (#[trigger] rs[i]).id != (#[trigger] rs[j]).id,
    ensures
        remove_id(rs, id) =~= rs.remove(at),
    decreases rs.len(),
{
    if rs.len() > 0 {
        if at == rs.len() - 1 {
            assert(forall|j: int|
                0 <= j < rs.drop_last().len() ==> (#[trigger] rs.drop_last()[j]).id != id);
            lemma_remove_id_absent(rs.drop_last(), id);
            assert(rs.remove(at) =~= rs.drop_last());
        } else {
            assert(rs.last().id != id);
            lemma_remove_id_found(rs.drop_last(), id, at);
            assert(remove_id(rs, id) =~= rs.drop_last().remove(at).push(rs.last()));
            assert(rs.drop_last().remove(at).push(rs.last()) =~= rs.remove(at));
        }
    }
}

proof fn lemma_remove_id_no_id(rs: Seq<ReplicaInfo>, id: u64)
    ensures
        forall|j: int| 0 <= j < remove_id(rs, id).len() ==> (#[trigger] remove_id(rs, id)[j]).id
            != id,
    decreases rs.len(),
{
    if rs.len() > 0 {
        lemma_remove_id_no_id(rs.drop_last(), id);
        if rs.last().id != id {
            assert forall|j: int| 0 <= j < remove_id(rs, id).len() implies (
            #[trigger] remove_id(rs, id)[j]).id != id by {
                if j < remove_id(rs.drop_last(), id).len() {
                    assert(remove_id(rs, id)[j] == remove_id(rs.drop_last(), id)[j]);
                }
            }
        }
    }
}

/// Removing entries keeps well-formedness against the same log, and
/// keeps identifiers distinct.
proof fn lemma_remove_id_wf(rs: Seq<ReplicaInfo>, id: u64, log: Seq<u8>)
    requires
        forall|j: int| 0 <= j < rs.len() ==> (#[trigger] rs[j]).wf_in(log),
        forall|i: int, j: int|
            0 <= i < j < rs.len() ==> (#[trigger] rs[i]).id != (#[trigger] rs[j]).id,
    ensures
        forall|j: int| 0 <= j < remove_id(rs, id).len() ==> (#[trigger] remove_id(rs, id)[j]).wf_in(
            log,
        ),
        forall|i: int, j: int|
            0 <= i < j < remove_id(rs, id).len() ==> (#[trigger] remove_id(rs, id)[i]).id != (
            #[trigger] remove_id(rs, id)[j]).id,
        remove_id(rs, id).len() <= rs.len(),
        forall|j: int| 0 <= j < remove_id(rs, id).len() ==> exists|j0: int|
            0 <= j0 < rs.len() && rs[j0] == (#[trigger] remove_id(rs, id)[j]),
    decreases rs.len(),
{
    if rs.len() > 0 {
        assert(forall|j: int|
            0 <= j < rs.drop_last().len() ==> (#[trigger] rs.drop_last()[j]) == rs[j]);
        lemma_remove_id_wf(rs.drop_last(), id, log);
        if rs.last().id != id {
            let out = remove_id(rs, id);
            assert(out =~= remove_id(rs.drop_last(), id).push(rs.last()));
            assert forall|j: int| 0 <= j < out.len() implies (#[trigger] out[j]).wf_in(log) by {
                if j < out.len() - 1 {
                    assert(out[j] == remove_id(rs.drop_last(), id)[j]);
                } else {
                    assert(out[j] == rs.last());
                    assert(rs[rs.len() - 1].wf_in(log));
                }
            }
            assert forall|a: int, b: int| 0 <= a < b < out.len() implies (#[trigger] out[a]).id
                != (#[trigger] out[b]).id by {
                if b < out.len() - 1 {
                    assert(out[a] == remove_id(rs.drop_last(), id)[a]);
                    assert(out[b] == remove_id(rs.drop_last(), id)[b]);
                } else {
                    assert(out[b] == rs.last());
                    let j0 = choose|j0: int|
                        0 <= j0 < rs.drop_last().len() && rs.drop_last()[j0] == out[a];
                    assert(rs[j0].id != rs[rs.len() - 1].id);
                }
            }
            assert forall|j: int| 0 <= j < out.len() implies exists|j0: int|
                0 <= j0 < rs.len() && rs[j0] == (#[trigger] out[j]) by {
                if j < out.len() - 1 {
                    assert(out[j] == remove_id(rs.drop_last(), id)[j]);
                    let j0 = choose|j0: int|
                        0 <= j0 < rs.drop_last().len() && rs.drop_last()[j0] == out[j];
                    assert(rs[j0] == out[j]);
                } else {
                    assert(rs[rs.len() - 1] == out[j]);
                }
            }
        } else {
            assert forall|j: int|
                0 <= j < remove_id(rs, id).len() implies exists|j0: int|
                0 <= j0 < rs.len() && rs[j0] == (#[trigger] remove_id(rs, id)[j]) by {
                let j0 = choose|j0: int|
                    0 <= j0 < rs.drop_last().len() && rs.drop_last()[j0] == remove_id(rs, id)[j];
                assert(rs[j0] == remove_id(rs, id)[j]);
            }
        }
    }
}



/// A count helper: how many replicas acknowledge exactly `target`.
fn count_synced_exec(replicas: &Vec<ReplicaInfo>, target: u64) -> (r: u64)
    ensures
        r as int == count_synced(replicas@, target),
        r <= replicas@.len(),
{
    let mut count: u64 = 0;
    let mut i: usize = 0;
    while i < replicas.len()
        invariant
            i <= replicas@.len(),
            count <= i,
            count as int == count_synced(replicas@.take(i as int), target),
        decreases replicas@.len() - i,
    {
        if replicas[i].acker.get_bytes() == target {
            count = count + 1;
        }
        i = i + 1;
        proof {
            assert(replicas@.take(i as int).drop_last() =~= replicas@.take(i - 1));
            assert(replicas@.take(i as int).last() == replicas@[i - 1]);
        }
    }
    proof {
        assert(replicas@.take(replicas@.len() as int) =~= replicas@);
    }
    count
}

/// The primary state after handing `bytes` out for replication: the log
/// and counter grow by the bytes, and every replica is due to receive
/// them; nothing else moves.
pub open spec fn primary_appended(
    pre: RedisReplicationMode,
    post: RedisReplicationMode,
    bytes: Seq<u8>,
) -> bool {
    match (pre, post) {
        (
            RedisReplicationMode::Primary {
                replication_id: rid1,
                replication_offset: off1,
                replicas: rs1,
                replicated_bytes: rb1,
                log: log1,
            },
            RedisReplicationMode::Primary {
                replication_id: rid2,
                replication_offset: off2,
                replicas: rs2,
                replicated_bytes: rb2,
                log: log2,
            },
        ) => {
            &&& rid2 == rid1
            &&& off2 == off1
            &&& rb2 == rb1 + bytes.len()
            &&& log2@ =~= log1@ + bytes
            &&& rs2@.len() == rs1@.len()
            &&& (forall|i: int|
                0 <= i < rs1@.len() ==> {
                    let r0 = #[trigger] rs1@[i];
                    let r2 = rs2@[i];
                    r2.id == r0.id && r2.acker == r0.acker && r2.joined_at == r0.joined_at
                        && r2.sent@ =~= r0.sent@ + bytes
                })
        },
        _ => false,
    }
}

impl RedisReplication {
    /// `WAIT num_replicas timeout` on a primary. If enough replicas have
    /// already acknowledged every replicated byte, the count is answered
    /// at once. Otherwise a `REPLCONF GETACK *` probe joins the
    /// replication stream — the log grows by the probe — and the caller
    /// collects acknowledgements equal to the pre-probe byte count until
    /// the deadline. With no replicas, or with a zero target, the answer
    /// is always immediate.
    pub fn wait(&mut self, num_replicas: u64, timeout: u64) -> (r: Result<
        ReplicationAction,
        ReplicationError,
    >)
        requires
            old(self).wf(),
            old(self).replication_mode matches RedisReplicationMode::Primary {
                replicated_bytes,
                ..
            } ==> replicated_bytes + getack_wire().len() <= u64::MAX,
            old(self).replication_mode matches RedisReplicationMode::Primary {
                replicas,
                ..
            } ==> replicas@.len() <= 0x7fff_ffff_ffff_ffff,
        ensures
            final(self).wf(),
            match old(self).replication_mode {
                RedisReplicationMode::Primary { replicas, replicated_bytes, .. } => {
                    let c = count_synced(replicas@, replicated_bytes);
                    let thr: int = if num_replicas <= replicas@.len() {
                        num_replicas as int
                    } else {
                        replicas@.len() as int
                    };
                    &&& (c >= thr ==> {
                        &&& r matches Ok(
                            ReplicationAction::WaitImmediate { count, reply },
                        ) && count == c && reply@ =~= encoding(ValueModel::Integer(c))
                        &&& *final(self) == *old(self)
                    })
                    &&& (c < thr ==> {
                        &&& r matches Ok(
                            ReplicationAction::WaitProbe {
                                probe,
                                expected,
                                base_count,
                                threshold,
                                timeout: t2,
                                targets,
                            },
                        ) && probe@ =~= getack_wire() && expected == replicated_bytes
                            && base_count == c && threshold == thr && t2 == timeout && targets@
                            =~= ids_of(replicas@)
                        &&& primary_appended(
                            old(self).replication_mode,
                            final(self).replication_mode,
                            getack_wire(),
                        )
                    })
                    &&& (num_replicas == 0 ==> r matches Ok(
                        ReplicationAction::WaitImmediate { .. },
                    ))
                    &&& (replicas@.len() == 0 ==> (r matches Ok(
                        ReplicationAction::WaitImmediate { count, .. },
                    ) && count == 0))
                },
                RedisReplicationMode::Replica { .. } => {
                    &&& r == Err::<ReplicationAction, ReplicationError>(
                        ReplicationError::NotPrimary,
                    )
                    &&& *final(self) == *old(self)
                },
            },
    {
        let count: u64;
        let replica_count: u64;
        let expected: u64;
        match &self.replication_mode {
            RedisReplicationMode::Primary { replicas, replicated_bytes, .. } => {
                count = count_synced_exec(replicas, *replicated_bytes);
                replica_count = replicas.len() as u64;
                expected = *replicated_bytes;
            },
            RedisReplicationMode::Replica { .. } => {
                return Err(ReplicationError::NotPrimary);
            },
        }
        let threshold: u64 = if num_replicas <= replica_count {
            num_replicas
        } else {
            replica_count
        };
        proof {
            if let RedisReplicationMode::Primary { replicas, replicated_bytes, .. } = &self
                .replication_mode {
                lemma_count_synced_bounds(replicas@, *replicated_bytes);
            }
        }
        if count >= threshold {
            let reply = crate::resp::encode(&RESPValue::Integer(count as i64));
            Ok(ReplicationAction::WaitImmediate { count, reply })
        } else {
            let probe = replconf_get_ack();
            let targets = self.try_replicate(&probe);
            Ok(
                ReplicationAction::WaitProbe {
                    probe,
                    expected,
                    base_count: count,
                    threshold,
                    timeout,
                    targets,
                },
            )
        }
    }

    /// Applies one replication command for the given client and says what
    /// must happen on the wire.
    pub fn handle_command(&mut self, client_id: u64, command: &RedisReplicationCommand) -> (r:
        Result<ReplicationAction, ReplicationError>)
        requires
            old(self).wf(),
            (command matches RedisReplicationCommand::Wait { .. }) ==> (old(
                self,
            ).replication_mode matches RedisReplicationMode::Primary { replicated_bytes, .. }
                ==> replicated_bytes + getack_wire().len() <= u64::MAX),
            (command matches RedisReplicationCommand::Wait { .. }) ==> (old(
                self,
            ).replication_mode matches RedisReplicationMode::Primary { replicas, .. }
                ==> replicas@.len() <= 0x7fff_ffff_ffff_ffff),
        ensures
            final(self).wf(),
            match command {
                RedisReplicationCommand::Info { .. } => {
                    &&& r matches Ok(ReplicationAction::Reply { bytes }) && bytes@ =~= encoding(
                        ValueModel::BulkString(info_payload(old(self).replication_mode)),
                    )
                    &&& *final(self) == *old(self)
                },
                RedisReplicationCommand::ReplConf { section: ReplConfSection::Port { .. } } => {
                    &&& r matches Ok(ReplicationAction::Reply { bytes }) && bytes@ =~= ok_wire()
                    &&& *final(self) == *old(self)
                },
                RedisReplicationCommand::ReplConf { section: ReplConfSection::Capa { .. } } => {
                    &&& r matches Ok(ReplicationAction::Reply { bytes }) && bytes@ =~= ok_wire()
                    &&& *final(self) == *old(self)
                },
                RedisReplicationCommand::PSync { .. } => {
                    match old(self).replication_mode {
                        RedisReplicationMode::Primary {
                            replication_id,
                            replication_offset,
                            replicas,
                            replicated_bytes,
                            log,
                        } => {
                            &&& (r matches Ok(ReplicationAction::RegisterReplica { reply })
                                && reply@ =~= psync_reply(
                                replication_id@,
                                replication_offset as nat,
                            ))
                            &&& final(self).replication_mode
                                matches RedisReplicationMode::Primary {
                                replicas: rs2,
                                replicated_bytes: rb2,
                                log: log2,
                                ..
                            }
                            &&& rb2 == replicated_bytes
                            &&& log2@ =~= log@
                            &&& rs2@ =~= remove_id(replicas@, client_id).push(rs2@.last())
                            &&& rs2@.last().id == client_id
                            &&& rs2@.last().acker.acked_bytes == 0
                            &&& rs2@.last().joined_at == replicated_bytes
                            &&& rs2@.last().sent@ =~= Seq::<u8>::empty()
                        },
                        RedisReplicationMode::Replica { .. } => {
                            &&& r == Err::<ReplicationAction, ReplicationError>(
                                ReplicationError::NotPrimary,
                            )
                            &&& *final(self) == *old(self)
                        },
                    }
                },
                RedisReplicationCommand::ReplConf { section: ReplConfSection::GetAck } => {
                    match old(self).replication_mode {
                        RedisReplicationMode::Replica { processed_bytes, .. } => {
                            &&& r matches Ok(ReplicationAction::Reply { bytes }) && bytes@ =~= wire(
                                seq![
                                    spec_lit_replconf_upper(),
                                    spec_lit_ack_upper(),
                                    dec_rep(processed_bytes as nat),
                                ],
                            )
                            &&& *final(self) == *old(self)
                        },
                        RedisReplicationMode::Primary { .. } => {
                            &&& r == Err::<ReplicationAction, ReplicationError>(
                                ReplicationError::NotReplica,
                            )
                            &&& *final(self) == *old(self)
                        },
                    }
                },
                RedisReplicationCommand::ReplConf {
                    section: ReplConfSection::Ack { processed_bytes },
                } => {
                    match old(self).replication_mode {
                        RedisReplicationMode::Primary { replicas, .. } => {
                            if exists|j: int|
                                0 <= j < replicas@.len() && (#[trigger] replicas@[j]).id
                                    == client_id {
                                &&& r matches Ok(ReplicationAction::NoReply)
                                &&& exists|j: int|
                                    0 <= j < replicas@.len() && (#[trigger] replicas@[j]).id
                                        == client_id && (final(self).replication_mode
                                        matches RedisReplicationMode::Primary { replicas: rs2, .. }
                                        && rs2@ =~= replicas@.update(
                                        j,
                                        ReplicaInfo {
                                            acker: Acker { acked_bytes: *processed_bytes },
                                            ..replicas@[j]
                                        },
                                    ))
                            } else {
                                r == Err::<ReplicationAction, ReplicationError>(
                                    ReplicationError::UnknownReplica,
                                ) && *final(self) == *old(self)
                            }
                        },
                        RedisReplicationMode::Replica { .. } => {
                            r == Err::<ReplicationAction, ReplicationError>(
                                ReplicationError::NotPrimary,
                            ) && *final(self) == *old(self)
                        },
                    }
                },
                RedisReplicationCommand::Wait { num_replicas, timeout } => {
                    match old(self).replication_mode {
                        RedisReplicationMode::Primary { replicas, replicated_bytes, .. } => {
                            let c = count_synced(replicas@, replicated_bytes);
                            let thr: int = if num_replicas <= replicas@.len() {
                                num_replicas as int
                            } else {
                                replicas@.len() as int
                            };
                            &&& (c >= thr ==> (r matches Ok(
                                ReplicationAction::WaitImmediate { count, reply },
                            ) && count == c && reply@ =~= encoding(ValueModel::Integer(c))
                                && *final(self) == *old(self)))
                            &&& (c < thr ==> (r matches Ok(ReplicationAction::WaitProbe { probe, expected, base_count, threshold, timeout: t2, targets })
                                && probe@ =~= getack_wire() && expected == replicated_bytes
                                && base_count == c && threshold == thr && t2 == timeout
                                && targets@ =~= ids_of(replicas@) && primary_appended(
                                old(self).replication_mode,
                                final(self).replication_mode,
                                getack_wire(),
                            )))
                        },
                        RedisReplicationMode::Replica { .. } => {
                            r == Err::<ReplicationAction, ReplicationError>(
                                ReplicationError::NotPrimary,
                            ) && *final(self) == *old(self)
                        },
                    }
                },
            },
    {
        match command {
            RedisReplicationCommand::Info { section } => {
                let value = self.info(*section);
                let bytes = crate::resp::encode(&value);
                Ok(ReplicationAction::Reply { bytes })
            },
            RedisReplicationCommand::ReplConf { section: ReplConfSection::Port { .. } } => {
                Ok(ReplicationAction::Reply { bytes: self.repl_conf_port() })
            },
            RedisReplicationCommand::ReplConf { section: ReplConfSection::Capa { .. } } => {
                Ok(ReplicationAction::Reply { bytes: self.repl_conf_capa() })
            },
            RedisReplicationCommand::PSync { .. } => {
                match self.psync(client_id) {
                    Ok(reply) => Ok(ReplicationAction::RegisterReplica { reply }),
                    Err(e) => Err(e),
                }
            },
            RedisReplicationCommand::ReplConf { section: ReplConfSection::GetAck } => {
                match self.getack() {
                    Ok(bytes) => Ok(ReplicationAction::Reply { bytes }),
                    Err(e) => Err(e),
                }
            },
            RedisReplicationCommand::ReplConf { section: ReplConfSection::Ack { processed_bytes } } => {
                match self.ack(client_id, *processed_bytes) {
                    Ok(u) => Ok(ReplicationAction::NoReply),
                    Err(e) => Err(e),
                }
            },
            RedisReplicationCommand::Wait { num_replicas, timeout } => {
                self.wait(*num_replicas, *timeout)
            },
        }
    }
}


} // verus!
