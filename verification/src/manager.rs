//! The dispatcher: one owner of the store and the replication state.
//!
//! Connections turn client bytes into command packets; `handle_packet`
//! applies one packet and says what must be written where. Applying
//! packets one at a time in arrival order is what linearizes the server's
//! state changes.

use vstd::prelude::*;

use crate::command::{
    RedisCommand, RedisStoreCommand, RedisServerCommand, RedisReplicationCommand, ConfigSection,
    view_command, bytes_eq, clone_bytes,
};
use crate::encoding::{command_wire, replconf_get_ack};
use crate::keywords::{spec_lit_pong, spec_lit_dir, spec_lit_dbfilename, lit_pong, lit_dir,
    lit_dbfilename};
use crate::rdb::{RDBConfig, RDBPesistence};
use crate::replication::{
    RedisReplication, RedisReplicationMode, ReplicationAction, ReplicationError,
};
use crate::resp::{RESPValue, ValueModel, encoding, encoding_of, view_value, encode};
use crate::store::{RedisStore, StoreError};

verus! {

/// One parsed client request, tagged with the connection it came from.
pub struct RedisCommandPacket {
    pub client_id: u64,
    pub command: RedisCommand,
}

impl RedisCommandPacket {
    pub fn new(client_id: u64, command: RedisCommand) -> (r: Self)
        ensures
            r.client_id == client_id,
            r.command == command,
    {
        RedisCommandPacket { client_id, command }
    }
}

/// Why a packet could not be applied.
#[derive(Debug, PartialEq, Eq, Clone, Copy)]
pub enum StepError {
    Store(StoreError),
    Replication(ReplicationError),
    UnknownConfigKey,
    CounterOverflow,
}

/// What the caller must do after one packet was applied.
pub enum StepAction {
    /// Write these bytes to the requesting client.
    Reply { bytes: Vec<u8> },
    /// Write the reply to the client, and `payload` to every replica
    /// named in `targets`.
    ReplyAndReplicate { bytes: Vec<u8>, payload: Vec<u8>, targets: Vec<u64> },
    /// Write the reply and treat the connection as a replica's from now on.
    RegisterReplica { reply: Vec<u8> },
    /// Nothing to write.
    NoReply,
    /// `WAIT` answered at once.
    WaitImmediate { count: u64, reply: Vec<u8> },
    /// `WAIT` must probe; see `ReplicationAction::WaitProbe`.
    WaitProbe {
        probe: Vec<u8>,
        expected: u64,
        base_count: u64,
        threshold: u64,
        timeout: u64,
        targets: Vec<u64>,
    },
}

/// The replica-side accounting step: after a replica applies a command
/// that came from its primary — the packet tagged with the sentinel
/// client — its consumed byte count grows by the command's wire length.
/// Commands from ordinary clients, and a primary's own state, leave the
/// counters alone.
pub open spec fn hook_applied(
    pre: RedisReplicationMode,
    post: RedisReplicationMode,
    c: RedisCommand,
    now: int,
    client_id: u64,
) -> bool {
    match pre {
        RedisReplicationMode::Replica { primary_host, primary_port, processed_bytes } => {
            if client_id == u64::MAX {
                post == (RedisReplicationMode::Replica {
                    primary_host,
                    primary_port,
                    processed_bytes: (processed_bytes + command_wire(
                        view_command(c),
                        now,
                    ).len()) as u64,
                })
            } else {
                post == pre
            }
        },
        RedisReplicationMode::Primary { .. } => post == pre,
    }
}

/// When a packet must be refused because a 64-bit byte counter would
/// pass its range: a primary-originated command on a replica whose
/// consumed count would wrap, a write whose fan-out would wrap the
/// replicated count, or a `WAIT` whose probe would — or whose replica
/// count cannot be answered as a signed 64-bit integer.
pub open spec fn counter_overflow(
    pre: RedisReplicationMode,
    c: RedisCommand,
    now: int,
    client_id: u64,
) -> bool {
    match pre {
        RedisReplicationMode::Replica { processed_bytes, .. } => {
            client_id == u64::MAX && processed_bytes + command_wire(view_command(c), now).len()
                > u64::MAX
        },
        RedisReplicationMode::Primary { replicated_bytes, replicas, .. } => {
            ||| (c matches RedisCommand::Store(RedisStoreCommand::SetValue { .. })
                && replicated_bytes + command_wire(view_command(c), now).len() > u64::MAX)
            ||| (c matches RedisCommand::Replication(RedisReplicationCommand::Wait { .. }) && (
            replicated_bytes + crate::replication::getack_wire().len() > u64::MAX || replicas@.len()
                > 0x7fff_ffff_ffff_ffff))
        },
    }
}

/// The `CONFIG GET` reply elements: each requested key followed by its
/// value; `None` when a key is unknown.
pub open spec fn config_reply(keys: Seq<Seq<u8>>, dir: Seq<u8>, file_name: Seq<u8>) -> Option<
    Seq<ValueModel>,
>
    decreases keys.len(),
{
    if keys.len() == 0 {
        Some(Seq::empty())
    } else {
        let head = keys[0];
        let value = if head == spec_lit_dir() {
            Some(dir)
        } else if head == spec_lit_dbfilename() {
            Some(file_name)
        } else {
            None
        };
        match (value, config_reply(keys.subrange(1, keys.len() as int), dir, file_name)) {
            (Some(v), Some(rest)) => Some(
                seq![ValueModel::BulkString(head), ValueModel::BulkString(v)] + rest,
            ),
            _ => None,
        }
    }
}


/// Everything `handle_packet` guarantees for a store command that was
/// applied: the store stepped per `store_step`, the reply encodes the
/// store's answer, a write is handed to every replica, and a replica's
/// byte accounting advanced.
pub open spec fn store_packet_post(
    cmd: RedisStoreCommand,
    c: RedisCommand,
    now: int,
    client_id: u64,
    items_pre: Seq<(Vec<u8>, crate::store::StoreValue)>,
    items_post: Seq<(Vec<u8>, crate::store::StoreValue)>,
    pre: RedisReplicationMode,
    post: RedisReplicationMode,
    a: StepAction,
) -> bool {
    &&& (exists|v: RESPValue|
        crate::store::store_step(cmd, now, items_pre, items_post, Ok(v)) && (match a {
            StepAction::Reply { bytes } => !(cmd matches RedisStoreCommand::SetValue { .. })
                && bytes@ =~= encoding_of(v),
            StepAction::ReplyAndReplicate { bytes, payload, targets } => {
                &&& cmd matches RedisStoreCommand::SetValue { .. }
                &&& bytes@ =~= encoding_of(v)
                &&& payload@ =~= command_wire(view_command(c), now)
            },
            _ => false,
        }))
    &&& (pre matches RedisReplicationMode::Primary { .. } ==> (cmd
        matches RedisStoreCommand::SetValue { .. } ==> crate::replication::primary_appended(
        pre,
        post,
        command_wire(view_command(c), now),
    )) && (!(cmd matches RedisStoreCommand::SetValue { .. }) ==> post == pre))
    &&& (pre matches RedisReplicationMode::Replica { .. } ==> hook_applied(
        pre,
        post,
        c,
        now,
        client_id,
    ))
}

pub struct RedisManager {
    pub store: RedisStore,
    pub replication: RedisReplication,
    pub rdb_persistence: RDBPesistence,
}

impl RedisManager {
    pub open spec fn wf(&self) -> bool {
        &&& self.store.wf()
        &&& self.replication.wf()
    }

    pub fn new(store: RedisStore, replication_mode: RedisReplicationMode, rdb_config: RDBConfig)
        -> (r: Self)
        requires
            store.wf(),
            (RedisReplication { replication_mode }).wf(),
        ensures
            r.wf(),
            r.store == store,
            r.replication.replication_mode == replication_mode,
            r.rdb_persistence.config == rdb_config,
    {
        RedisManager {
            store,
            replication: RedisReplication::new(replication_mode),
            rdb_persistence: RDBPesistence::new(rdb_config),
        }
    }

    /// `PING` answers with a simple-string `PONG`.
    pub fn ping(&self) -> (r: RESPValue)
        ensures
            view_value(r) == ValueModel::SimpleString(spec_lit_pong()),
    {
        RESPValue::SimpleString(lit_pong())
    }

    /// `ECHO` answers with the message as a bulk string.
    pub fn echo(&self, message: &Vec<u8>) -> (r: RESPValue)
        ensures
            view_value(r) == ValueModel::BulkString(message@),
    {
        RESPValue::BulkString(clone_bytes(message))
    }

    /// `CONFIG GET` answers with key/value pairs from the persistence
    /// configuration; an unknown key is an error.
    pub fn config(&self, section: &ConfigSection) -> (r: Result<RESPValue, StepError>)
        ensures
            match section {
                ConfigSection::Get { keys } => match config_reply(
                    crate::command::views_of(keys@),
                    self.rdb_persistence.config.dir@,
                    self.rdb_persistence.config.file_name@,
                ) {
                    Some(vs) => r matches Ok(v) && view_value(v) == ValueModel::Array(vs),
                    None => r == Err::<RESPValue, StepError>(StepError::UnknownConfigKey),
                },
            },
    {
        match section {
            ConfigSection::Get { keys } => {
                let ghost ks = crate::command::views_of(keys@);
                let ghost dirv = self.rdb_persistence.config.dir@;
                let ghost filev = self.rdb_persistence.config.file_name@;
                let kw_dir = lit_dir();
                let kw_dbfilename = lit_dbfilename();
                let mut values: Vec<RESPValue> = Vec::new();
                proof {
                    assert(ks.subrange(0, ks.len() as int) =~= ks);
                    assert(crate::resp::view_values(values@) =~= Seq::<ValueModel>::empty());
                    if let Some(vs) = config_reply(ks, dirv, filev) {
                        assert(vs =~= crate::resp::view_values(values@) + vs);
                    }
                }
                let mut i: usize = 0;
                while i < keys.len()
                    invariant
                        i <= keys@.len(),
                        *section == (ConfigSection::Get { keys: *keys }),
                        ks == crate::command::views_of(keys@),
                        dirv == self.rdb_persistence.config.dir@,
                        filev == self.rdb_persistence.config.file_name@,
                        kw_dir@ =~= spec_lit_dir(),
                        kw_dbfilename@ =~= spec_lit_dbfilename(),
                        config_reply(ks, dirv, filev) matches Some(vs) ==> {
                            &&& config_reply(ks.subrange(i as int, ks.len() as int), dirv, filev)
                                matches Some(rest)
                            &&& vs =~= crate::resp::view_values(values@) + rest
                        },
                        (config_reply(ks.subrange(i as int, ks.len() as int), dirv, filev)
                            is None) <==> (config_reply(ks, dirv, filev) is None),
                    decreases keys@.len() - i,
                {
                    let key = clone_bytes(&keys[i]);
                    let value: Vec<u8>;
                    if bytes_eq(&key, &kw_dir) {
                        value = clone_bytes(&self.rdb_persistence.config.dir);
                    } else if bytes_eq(&key, &kw_dbfilename) {
                        value = clone_bytes(&self.rdb_persistence.config.file_name);
                    } else {
                        proof {
                            let tail_pre = ks.subrange(i as int, ks.len() as int);
                            assert(tail_pre.len() > 0);
                            assert(tail_pre[0] == ks[i as int]);
                            assert(ks[i as int] == keys@[i as int]@);
                            assert(key@ == keys@[i as int]@);
                            assert(tail_pre[0] != spec_lit_dir());
                            assert(tail_pre[0] != spec_lit_dbfilename());
                            assert(config_reply(tail_pre, dirv, filev) is None);
                        }
                        return Err(StepError::UnknownConfigKey);
                    }
                    let ghost kv = key@;
                    let ghost vv = value@;
                    let ghost vals0 = values@;
                    values.push(RESPValue::BulkString(key));
                    let ghost vals1 = values@;
                    values.push(RESPValue::BulkString(value));
                    i = i + 1;
                    proof {
                        let tail_pre = ks.subrange(i - 1, ks.len() as int);
                        let tail_post = ks.subrange(i as int, ks.len() as int);
                        assert(tail_pre[0] == ks[i - 1]);
                        assert(ks[i - 1] == keys@[i - 1]@);
                        assert(kv == ks[i - 1]);
                        assert(tail_pre.subrange(1, tail_pre.len() as int) =~= tail_post);
                        crate::resp::lemma_view_values_push(vals0, vals1.last());
                        assert(vals1 =~= vals0.push(vals1.last()));
                        assert(view_value(vals1.last()) == ValueModel::BulkString(kv));
                        crate::resp::lemma_view_values_push(vals1, values@.last());
                        assert(values@ =~= vals1.push(values@.last()));
                        assert(view_value(values@.last()) == ValueModel::BulkString(vv));
                        assert(crate::resp::view_values(values@) =~= crate::resp::view_values(
                            vals0,
                        ).push(ValueModel::BulkString(kv)).push(ValueModel::BulkString(vv)));
                        if let Some(vs) = config_reply(ks, dirv, filev) {
                            assert(config_reply(tail_pre, dirv, filev) matches Some(rest_pre)
                                && rest_pre =~= seq![
                                ValueModel::BulkString(kv),
                                ValueModel::BulkString(vv),
                            ] + (match config_reply(tail_post, dirv, filev) {
                                Some(rest_post) => rest_post,
                                None => Seq::empty(),
                            }));
                            assert(vs =~= crate::resp::view_values(values@) + (
                            match config_reply(tail_post, dirv, filev) {
                                Some(rest_post) => rest_post,
                                None => Seq::empty(),
                            }));
                        }
                    }
                }
                proof {
                    assert(ks.subrange(ks.len() as int, ks.len() as int) =~= Seq::<Seq<u8>>::empty());
                    if let Some(vs) = config_reply(ks, dirv, filev) {
                        assert(vs =~= crate::resp::view_values(values@));
                    }
                }
                Ok(RESPValue::Array(values))
            },
        }
    }
}


impl RedisManager {
    /// Applies one packet: the store or replication transition happens
    /// here, and the returned action says what the connection layer must
    /// write where. Counter overflow — a byte counter that would pass the
    /// 64-bit range — is reported instead of wrapping and leaves the
    /// state unchanged.
    #[verifier::rlimit(100)]
    #[verifier::spinoff_prover]
    pub fn handle_packet(&mut self, packet: &RedisCommandPacket, now_millis: u64) -> (r: Result<
        StepAction,
        StepError,
    >)
        requires
            old(self).wf(),
        ensures
            final(self).wf(),
            ({
                let pre = old(self).replication.replication_mode;
                let post = final(self).replication.replication_mode;
                let now = now_millis as int;
                let c = packet.command;
                match packet.command {
                    RedisCommand::Store(cmd) => {
                        &&& (r matches Ok(a) ==> store_packet_post(
                            cmd,
                            c,
                            now,
                            packet.client_id,
                            old(self).store.items@,
                            final(self).store.items@,
                            pre,
                            post,
                            a,
                        ))
                        &&& (r matches Err(StepError::Store(e)) ==> crate::store::store_step(
                            cmd,
                            now,
                            old(self).store.items@,
                            final(self).store.items@,
                            Err(e),
                        ) && post == pre)
                    },
                    _ => true,
                }
            }),
            ({
                let pre = old(self).replication.replication_mode;
                let post = final(self).replication.replication_mode;
                let now = now_millis as int;
                let c = packet.command;
                match packet.command {
                    RedisCommand::Server(sc) => {
                        &&& (r matches Ok(a) ==> {
                            &&& a matches StepAction::Reply { bytes }
                            &&& (match sc {
                                RedisServerCommand::Ping => (a
                                    matches StepAction::Reply { bytes } && bytes@ =~= encoding(
                                    ValueModel::SimpleString(spec_lit_pong()),
                                )),
                                RedisServerCommand::Echo { message } => (a
                                    matches StepAction::Reply { bytes } && bytes@ =~= encoding(
                                    ValueModel::BulkString(message@),
                                )),
                                RedisServerCommand::Config { section: ConfigSection::Get { keys } } => (
                                config_reply(
                                    crate::command::views_of(keys@),
                                    old(self).rdb_persistence.config.dir@,
                                    old(self).rdb_persistence.config.file_name@,
                                ) matches Some(vs) && (a matches StepAction::Reply { bytes }
                                    && bytes@ =~= encoding(ValueModel::Array(vs)))),
                            })
                            &&& final(self).store == old(self).store
                            &&& (pre matches RedisReplicationMode::Primary { .. } ==> post == pre)
                            &&& (pre matches RedisReplicationMode::Replica { .. }
                                ==> hook_applied(pre, post, c, now, packet.client_id))
                        })
                    },
                    _ => true,
                }
            }),
            ({
                let pre = old(self).replication.replication_mode;
                let post = final(self).replication.replication_mode;
                let now = now_millis as int;
                let c = packet.command;
                match packet.command {
                    RedisCommand::Replication(rc) => {
                        &&& final(self).store == old(self).store
                        &&& (r matches Ok(a) ==> {
                            &&& (match rc {
                                RedisReplicationCommand::Info { .. } => (a
                                    matches StepAction::Reply { bytes } && bytes@ =~= encoding(
                                    ValueModel::BulkString(
                                        crate::replication::info_payload(pre),
                                    ),
                                )),
                                RedisReplicationCommand::ReplConf {
                                    section: crate::command::ReplConfSection::Port { .. },
                                } => (a matches StepAction::Reply { bytes } && bytes@
                                    =~= crate::replication::ok_wire()),
                                RedisReplicationCommand::ReplConf {
                                    section: crate::command::ReplConfSection::Capa { .. },
                                } => (a matches StepAction::Reply { bytes } && bytes@
                                    =~= crate::replication::ok_wire()),
                                RedisReplicationCommand::PSync { .. } => (pre
                                    matches RedisReplicationMode::Primary {
                                    replication_id,
                                    replication_offset,
                                    ..
                                } && (a matches StepAction::RegisterReplica { reply } && reply@
                                    =~= crate::replication::psync_reply(
                                    replication_id@,
                                    replication_offset as nat,
                                ))),
                                RedisReplicationCommand::ReplConf {
                                    section: crate::command::ReplConfSection::GetAck,
                                } => (pre matches RedisReplicationMode::Replica {
                                    processed_bytes,
                                    ..
                                } && (a matches StepAction::Reply { bytes } && bytes@
                                    =~= crate::encoding::wire(
                                    seq![
                                        crate::keywords::spec_lit_replconf_upper(),
                                        crate::keywords::spec_lit_ack_upper(),
                                        crate::decimal::dec_rep(processed_bytes as nat),
                                    ],
                                ))),
                                RedisReplicationCommand::ReplConf {
                                    section: crate::command::ReplConfSection::Ack { .. },
                                } => a matches StepAction::NoReply,
                                RedisReplicationCommand::Wait { num_replicas, timeout } => (
                                pre matches RedisReplicationMode::Primary {
                                    replicas,
                                    replicated_bytes,
                                    ..
                                } && {
                                    let count = crate::replication::count_synced(
                                        replicas@,
                                        replicated_bytes,
                                    );
                                    let thr: int = if num_replicas <= replicas@.len() {
                                        num_replicas as int
                                    } else {
                                        replicas@.len() as int
                                    };
                                    &&& (count >= thr ==> (a
                                        matches StepAction::WaitImmediate { count: n, reply }
                                        && n == count && reply@ =~= encoding(
                                        ValueModel::Integer(count),
                                    )))
                                    &&& (count < thr ==> (a matches StepAction::WaitProbe {
                                        probe,
                                        expected,
                                        base_count,
                                        threshold,
                                        timeout: t2,
                                        targets,
                                    } && probe@ =~= crate::replication::getack_wire()
                                        && expected == replicated_bytes && base_count == count
                                        && threshold == thr && t2 == timeout))
                                }),
                            })
                        })
                        &&& (r matches Ok(a) ==> (pre
                            matches RedisReplicationMode::Replica { .. } ==> hook_applied(
                            pre,
                            post,
                            c,
                            now,
                            packet.client_id,
                        )))
                        &&& (r is Err ==> post == pre)
                    },
                    _ => true,
                }
            }),
            // when the call fails, and with what: the overflow refusal
            // happens exactly when a counter would wrap, an error leaves
            // every part of the state as it was, and without overflow
            // each command succeeds or fails exactly as its handler says
            ({
                let pre = old(self).replication.replication_mode;
                let now = now_millis as int;
                let c = packet.command;
                &&& (r == Err::<StepAction, StepError>(StepError::CounterOverflow)
                    <==> counter_overflow(pre, c, now, packet.client_id))
                &&& (r is Err ==> final(self).store == old(self).store
                    && final(self).replication.replication_mode == pre
                    && final(self).rdb_persistence == old(self).rdb_persistence)
                &&& (!counter_overflow(pre, c, now, packet.client_id) ==> match packet.command {
                    RedisCommand::Store(cmd) => (r matches Ok(_)) || (r matches Err(
                        StepError::Store(_),
                    )),
                    RedisCommand::Server(sc) => match sc {
                        RedisServerCommand::Ping => r is Ok,
                        RedisServerCommand::Echo { .. } => r is Ok,
                        RedisServerCommand::Config { section: ConfigSection::Get { keys } } => {
                            &&& ((config_reply(
                                crate::command::views_of(keys@),
                                old(self).rdb_persistence.config.dir@,
                                old(self).rdb_persistence.config.file_name@,
                            ) is Some) ==> r is Ok)
                            &&& ((config_reply(
                                crate::command::views_of(keys@),
                                old(self).rdb_persistence.config.dir@,
                                old(self).rdb_persistence.config.file_name@,
                            ) is None) ==> r == Err::<StepAction, StepError>(
                                StepError::UnknownConfigKey,
                            ))
                        },
                    },
                    RedisCommand::Replication(rc) => match rc {
                        RedisReplicationCommand::Info { .. } => r is Ok,
                        RedisReplicationCommand::ReplConf {
                            section: crate::command::ReplConfSection::Port { .. },
                        } => r is Ok,
                        RedisReplicationCommand::ReplConf {
                            section: crate::command::ReplConfSection::Capa { .. },
                        } => r is Ok,
                        RedisReplicationCommand::PSync { .. } => {
                            &&& (pre matches RedisReplicationMode::Primary { .. } ==> r is Ok)
                            &&& (pre matches RedisReplicationMode::Replica { .. } ==> r == Err::<
                                StepAction,
                                StepError,
                            >(StepError::Replication(ReplicationError::NotPrimary)))
                        },
                        RedisReplicationCommand::ReplConf {
                            section: crate::command::ReplConfSection::GetAck,
                        } => {
                            &&& (pre matches RedisReplicationMode::Replica { .. } ==> r is Ok)
                            &&& (pre matches RedisReplicationMode::Primary { .. } ==> r == Err::<
                                StepAction,
                                StepError,
                            >(StepError::Replication(ReplicationError::NotReplica)))
                        },
                        RedisReplicationCommand::ReplConf {
                            section: crate::command::ReplConfSection::Ack { .. },
                        } => {
                            &&& (pre matches RedisReplicationMode::Primary { replicas, .. } ==> {
                                &&& ((exists|j: int|
                                    0 <= j < replicas@.len() && (#[trigger] replicas@[j]).id
                                        == packet.client_id) ==> r is Ok)
                                &&& (!(exists|j: int|
                                    0 <= j < replicas@.len() && (#[trigger] replicas@[j]).id
                                        == packet.client_id) ==> r == Err::<
                                    StepAction,
                                    StepError,
                                >(StepError::Replication(ReplicationError::UnknownReplica)))
                            })
                            &&& (pre matches RedisReplicationMode::Replica { .. } ==> r == Err::<
                                StepAction,
                                StepError,
                            >(StepError::Replication(ReplicationError::NotPrimary)))
                        },
                        RedisReplicationCommand::Wait { .. } => {
                            &&& (pre matches RedisReplicationMode::Primary { .. } ==> r is Ok)
                            &&& (pre matches RedisReplicationMode::Replica { .. } ==> r == Err::<
                                StepAction,
                                StepError,
                            >(StepError::Replication(ReplicationError::NotPrimary)))
                        },
                    },
                })
            }),
    {
        let encoded = packet.command.to_bytes(now_millis);
        let encoded_len: u64 = encoded.len() as u64;
        // pre-flight counter checks: nothing is applied if a counter
        // would pass the 64-bit range
        match &self.replication.replication_mode {
            RedisReplicationMode::Replica { processed_bytes, .. } => {
                if packet.client_id == u64::MAX && *processed_bytes > u64::MAX - encoded_len {
                    return Err(StepError::CounterOverflow);
                }
            },
            RedisReplicationMode::Primary { replicated_bytes, replicas, .. } => {
                let is_write = match &packet.command {
                    RedisCommand::Store(cmd) => cmd.is_write(),
                    _ => false,
                };
                if is_write && *replicated_bytes > u64::MAX - encoded_len {
                    return Err(StepError::CounterOverflow);
                }
                let is_wait = matches!(
                    &packet.command,
                    RedisCommand::Replication(RedisReplicationCommand::Wait { .. })
                );
                if is_wait {
                    let probe = replconf_get_ack();
                    if *replicated_bytes > u64::MAX - (probe.len() as u64) {
                        return Err(StepError::CounterOverflow);
                    }
                    if replicas.len() as u64 > 0x7fff_ffff_ffff_ffffu64 {
                        return Err(StepError::CounterOverflow);
                    }
                }
            },
        }
        match &packet.command {
            RedisCommand::Store(cmd) => {
                let value = match self.store.handle(cmd, now_millis) {
                    Ok(v) => v,
                    Err(e) => {
                        return Err(StepError::Store(e));
                    },
                };
                proof {
                    assert(crate::store::store_step(
                        *cmd,
                        now_millis as int,
                        old(self).store.items@,
                        self.store.items@,
                        Ok(value),
                    ));
                }
                let reply = encode(&value);
                let action: StepAction;
                if cmd.is_write() {
                    let targets = self.replication.try_replicate(&encoded);
                    action = StepAction::ReplyAndReplicate { bytes: reply, payload: encoded, targets };
                } else {
                    action = StepAction::Reply { bytes: reply };
                }
                if packet.client_id == u64::MAX {
                    self.replication.post_command_hook(&packet.command, now_millis);
                }
                proof {
                    let pre = old(self).replication.replication_mode;
                    let post = self.replication.replication_mode;
                    let now = now_millis as int;
                    assert(exists|v: RESPValue|
                        crate::store::store_step(
                            *cmd,
                            now,
                            old(self).store.items@,
                            self.store.items@,
                            Ok(v),
                        ) && (match action {
                            StepAction::Reply { bytes } => !(*cmd
                                matches RedisStoreCommand::SetValue { .. }) && bytes@
                                =~= encoding_of(v),
                            StepAction::ReplyAndReplicate { bytes, payload, targets } => {
                                &&& *cmd matches RedisStoreCommand::SetValue { .. }
                                &&& bytes@ =~= encoding_of(v)
                                &&& payload@ =~= command_wire(view_command(packet.command), now)
                            },
                            _ => false,
                        })) by {
                        assert(crate::store::store_step(
                            *cmd,
                            now,
                            old(self).store.items@,
                            self.store.items@,
                            Ok(value),
                        ));
                    }
                    assert(store_packet_post(
                        *cmd,
                        packet.command,
                        now,
                        packet.client_id,
                        old(self).store.items@,
                        self.store.items@,
                        pre,
                        post,
                        action,
                    ));
                }
                Ok(action)
            },
            RedisCommand::Server(RedisServerCommand::Ping) => {
                let v = self.ping();
                let bytes = encode(&v);
                if packet.client_id == u64::MAX {
                    self.replication.post_command_hook(&packet.command, now_millis);
                }
                Ok(StepAction::Reply { bytes })
            },
            RedisCommand::Server(RedisServerCommand::Echo { message }) => {
                let v = self.echo(message);
                let bytes = encode(&v);
                if packet.client_id == u64::MAX {
                    self.replication.post_command_hook(&packet.command, now_millis);
                }
                Ok(StepAction::Reply { bytes })
            },
            RedisCommand::Server(RedisServerCommand::Config { section }) => {
                let v = match self.config(section) {
                    Ok(v) => v,
                    Err(e) => {
                        return Err(e);
                    },
                };
                let bytes = encode(&v);
                proof {
                    if let ConfigSection::Get { keys } = section {
                        if let Some(vs) = config_reply(
                            crate::command::views_of(keys@),
                            self.rdb_persistence.config.dir@,
                            self.rdb_persistence.config.file_name@,
                        ) {
                            assert(view_value(v) == ValueModel::Array(vs));
                            assert(bytes@ =~= encoding(ValueModel::Array(vs)));
                        }
                    }
                }
                if packet.client_id == u64::MAX {
                    self.replication.post_command_hook(&packet.command, now_millis);
                }
                Ok(StepAction::Reply { bytes })
            },
            RedisCommand::Replication(rc) => {
                let action = match self.replication.handle_command(packet.client_id, rc) {
                    Ok(a) => a,
                    Err(e) => {
                        return Err(StepError::Replication(e));
                    },
                };
                if packet.client_id == u64::MAX {
                    self.replication.post_command_hook(&packet.command, now_millis);
                }
                let out = match action {
                    ReplicationAction::Reply { bytes } => StepAction::Reply { bytes },
                    ReplicationAction::RegisterReplica { reply } => StepAction::RegisterReplica {
                        reply,
                    },
                    ReplicationAction::NoReply => StepAction::NoReply,
                    ReplicationAction::WaitImmediate { count, reply } => StepAction::WaitImmediate {
                        count,
                        reply,
                    },
                    ReplicationAction::WaitProbe {
                        probe,
                        expected,
                        base_count,
                        threshold,
                        timeout,
                        targets,
                    } => StepAction::WaitProbe {
                        probe,
                        expected,
                        base_count,
                        threshold,
                        timeout,
                        targets,
                    },
                };
                Ok(out)
            },
        }
    }
}


} // verus!
