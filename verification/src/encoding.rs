//! Wire encodings of outgoing commands: each command becomes a RESP array
//! of bulk strings, encoded exactly as `command_wire` says.

use vstd::prelude::*;

use crate::command::{
    RedisCommand, RedisStoreCommand, RedisServerCommand, RedisReplicationCommand, ConfigSection,
    ReplConfSection, InfoSection, CommandModel, view_command, views_of, views_of_pairs,
    clone_bytes,
};
use crate::decimal::{dec_rep, int_rep, fmt_u64, fmt_i64};
use crate::keywords::{
    spec_lit_ping_upper, spec_lit_echo_upper, spec_lit_config_upper, spec_lit_get_upper,
    spec_lit_set_upper, spec_lit_px_upper, spec_lit_keys_upper, spec_lit_type_upper,
    spec_lit_xadd_upper, spec_lit_info_upper, spec_lit_replication, spec_lit_replconf_upper,
    spec_lit_listening_port, spec_lit_capa_lower, spec_lit_getack_upper, spec_lit_ack_upper,
    spec_lit_star, spec_lit_psync_upper, spec_lit_wait_upper,
    lit_ping_upper, lit_echo_upper, lit_config_upper, lit_get_upper, lit_set_upper, lit_px_upper,
    lit_keys_upper, lit_type_upper, lit_xadd_upper, lit_info_upper, lit_replication,
    lit_replconf_upper, lit_listening_port, lit_capa_lower, lit_getack_upper, lit_ack_upper,
    lit_star, lit_psync_upper, lit_wait_upper,
};
use crate::resp::{RESPValue, ValueModel, encoding, view_values, encode};

verus! {

/// A RESP array whose elements are the given bulk strings.
pub open spec fn bulk_array(parts: Seq<Seq<u8>>) -> ValueModel {
    ValueModel::Array(parts.map_values(|p: Seq<u8>| ValueModel::BulkString(p)))
}

/// The bytes of such an array on the wire.
pub open spec fn wire(parts: Seq<Seq<u8>>) -> Seq<u8> {
    encoding(bulk_array(parts))
}

/// Encodes the parts as a RESP array of bulk strings.
pub fn encode_parts(parts: Vec<Vec<u8>>) -> (r: Vec<u8>)
    ensures
        r@ =~= wire(views_of(parts@)),
{
    let ghost parts0 = parts@;
    let mut vals: Vec<RESPValue> = Vec::new();
    let mut rest = parts;
    while rest.len() > 0
        invariant
            vals@.len() + rest@.len() == parts0.len(),
            view_values(vals@) =~= views_of(parts0).subrange(0, vals@.len() as int).map_values(
                |p: Seq<u8>| ValueModel::BulkString(p),
            ),
            views_of(rest@) =~= views_of(parts0).subrange(
                vals@.len() as int,
                parts0.len() as int,
            ),
        decreases rest@.len(),
    {
        let ghost vals_old = vals@;
        let ghost rest_old = rest@;
        let p = rest.remove(0);
        vals.push(RESPValue::BulkString(p));
        proof {
            assert(rest@ =~= rest_old.subrange(1, rest_old.len() as int));
            assert(p@ == views_of(rest_old)[0]);
            assert(p@ == views_of(parts0)[vals_old.len() as int]);
            crate::resp::lemma_view_values_push(vals_old, RESPValue::BulkString(p));
            assert(view_values(vals@) =~= view_values(vals_old).push(ValueModel::BulkString(p@)));
            assert(views_of(parts0).subrange(0, vals@.len() as int) =~= views_of(parts0).subrange(
                0,
                vals_old.len() as int,
            ).push(views_of(parts0)[vals_old.len() as int]));
            assert(views_of(parts0).subrange(0, vals@.len() as int).map_values(
                |q: Seq<u8>| ValueModel::BulkString(q),
            ) =~= views_of(parts0).subrange(0, vals_old.len() as int).map_values(
                |q: Seq<u8>| ValueModel::BulkString(q),
            ).push(ValueModel::BulkString(views_of(parts0)[vals_old.len() as int])));
            assert(view_values(vals@) =~= views_of(parts0).subrange(
                0,
                vals@.len() as int,
            ).map_values(|q: Seq<u8>| ValueModel::BulkString(q)));
            assert(views_of(rest@) =~= views_of(rest_old).subrange(1, rest_old.len() as int));
            assert(views_of(rest_old).subrange(1, rest_old.len() as int) =~= views_of(
                parts0,
            ).subrange(vals@.len() as int, parts0.len() as int));
            assert(views_of(rest@) =~= views_of(parts0).subrange(
                vals@.len() as int,
                parts0.len() as int,
            ));
        }
    }
    proof {
        assert(views_of(parts0).subrange(0, parts0.len() as int) =~= views_of(parts0));
        assert(view_values(vals@) =~= views_of(parts0).map_values(
            |p: Seq<u8>| ValueModel::BulkString(p),
        ));
    }
    let arr = RESPValue::Array(vals);
    encode(&arr)
}

pub fn ping() -> (r: Vec<u8>)
    ensures
        r@ =~= wire(seq![spec_lit_ping_upper()]),
{
    let mut parts: Vec<Vec<u8>> = Vec::new();
    parts.push(lit_ping_upper());
    proof {
        assert(views_of(parts@) =~= seq![spec_lit_ping_upper()]);
    }
    encode_parts(parts)
}

pub fn echo(message: &Vec<u8>) -> (r: Vec<u8>)
    ensures
        r@ =~= wire(seq![spec_lit_echo_upper(), message@]),
{
    let mut parts: Vec<Vec<u8>> = Vec::new();
    parts.push(lit_echo_upper());
    parts.push(clone_bytes(message));
    proof {
        assert(views_of(parts@) =~= seq![spec_lit_echo_upper(), message@]);
    }
    encode_parts(parts)
}

pub fn get(key: &Vec<u8>) -> (r: Vec<u8>)
    ensures
        r@ =~= wire(seq![spec_lit_get_upper(), key@]),
{
    let mut parts: Vec<Vec<u8>> = Vec::new();
    parts.push(lit_get_upper());
    parts.push(clone_bytes(key));
    proof {
        assert(views_of(parts@) =~= seq![spec_lit_get_upper(), key@]);
    }
    encode_parts(parts)
}

/// The millisecond distance between the expiry instant and now.
pub open spec fn px_millis(t: int, now: int) -> int {
    if t >= now {
        t - now
    } else {
        now - t
    }
}

/// The parts of a `SET` command; an expiry is sent as a relative
/// `PX <millis>` pair.
pub open spec fn set_parts(key: Seq<u8>, value: Seq<u8>, px: Option<int>, now: int) -> Seq<
    Seq<u8>,
> {
    seq![spec_lit_set_upper(), key, value] + (match px {
        Some(t) => seq![spec_lit_px_upper(), dec_rep(px_millis(t, now) as nat)],
        None => Seq::empty(),
    })
}

pub fn set(key: &Vec<u8>, value: &Vec<u8>, px: Option<u64>, now_millis: u64) -> (r: Vec<u8>)
    ensures
        r@ =~= wire(
            set_parts(
                key@,
                value@,
                match px {
                    Some(t) => Some(t as int),
                    None => None,
                },
                now_millis as int,
            ),
        ),
{
    let mut parts: Vec<Vec<u8>> = Vec::new();
    parts.push(lit_set_upper());
    parts.push(clone_bytes(key));
    parts.push(clone_bytes(value));
    match px {
        Some(t) => {
            let diff: u64 = if t >= now_millis {
                t - now_millis
            } else {
                now_millis - t
            };
            parts.push(lit_px_upper());
            parts.push(fmt_u64(diff));
            proof {
                assert(views_of(parts@) =~= set_parts(
                    key@,
                    value@,
                    Some(t as int),
                    now_millis as int,
                ));
            }
        },
        None => {
            proof {
                assert(views_of(parts@) =~= set_parts(key@, value@, None, now_millis as int));
            }
        },
    }
    encode_parts(parts)
}

pub fn keys(key: &Vec<u8>) -> (r: Vec<u8>)
    ensures
        r@ =~= wire(seq![spec_lit_keys_upper(), key@]),
{
    let mut parts: Vec<Vec<u8>> = Vec::new();
    parts.push(lit_keys_upper());
    parts.push(clone_bytes(key));
    proof {
        assert(views_of(parts@) =~= seq![spec_lit_keys_upper(), key@]);
    }
    encode_parts(parts)
}

pub fn ty(key: &Vec<u8>) -> (r: Vec<u8>)
    ensures
        r@ =~= wire(seq![spec_lit_type_upper(), key@]),
{
    let mut parts: Vec<Vec<u8>> = Vec::new();
    parts.push(lit_type_upper());
    parts.push(clone_bytes(key));
    proof {
        assert(views_of(parts@) =~= seq![spec_lit_type_upper(), key@]);
    }
    encode_parts(parts)
}

/// Field names and values, flattened in order.
pub open spec fn flat_pairs(fields: Seq<(Seq<u8>, Seq<u8>)>) -> Seq<Seq<u8>>
    decreases fields.len(),
{
    if fields.len() == 0 {
        Seq::empty()
    } else {
        seq![fields[0].0, fields[0].1] + flat_pairs(fields.subrange(1, fields.len() as int))
    }
}

pub proof fn lemma_flat_pairs_push(fields: Seq<(Seq<u8>, Seq<u8>)>, x: (Seq<u8>, Seq<u8>))
    ensures
        flat_pairs(fields.push(x)) =~= flat_pairs(fields) + seq![x.0, x.1],
    decreases fields.len(),
{
    if fields.len() == 0 {
        assert(fields.push(x)[0] == x);
        assert(fields.push(x).subrange(1, 1) =~= Seq::<(Seq<u8>, Seq<u8>)>::empty());
        assert(flat_pairs(Seq::<(Seq<u8>, Seq<u8>)>::empty()) =~= Seq::<Seq<u8>>::empty());
        assert(flat_pairs(fields) =~= Seq::<Seq<u8>>::empty());
    } else {
        lemma_flat_pairs_push(fields.subrange(1, fields.len() as int), x);
        assert(fields.push(x)[0] == fields[0]);
        assert(fields.push(x).subrange(1, fields.len() as int + 1) =~= fields.subrange(
            1,
            fields.len() as int,
        ).push(x));
    }
}

pub open spec fn xadd_parts(key: Seq<u8>, entry_id: Seq<u8>, fields: Seq<(Seq<u8>, Seq<u8>)>) -> Seq<
    Seq<u8>,
> {
    seq![spec_lit_xadd_upper(), key, entry_id] + flat_pairs(fields)
}

pub fn xadd(key: &Vec<u8>, entry_id: &Vec<u8>, fields: &Vec<(Vec<u8>, Vec<u8>)>) -> (r: Vec<u8>)
    ensures
        r@ =~= wire(xadd_parts(key@, entry_id@, views_of_pairs(fields@))),
{
    let mut parts: Vec<Vec<u8>> = Vec::new();
    parts.push(lit_xadd_upper());
    parts.push(clone_bytes(key));
    parts.push(clone_bytes(entry_id));
    let ghost head = views_of(parts@);
    proof {
        assert(head =~= seq![spec_lit_xadd_upper(), key@, entry_id@]);
        assert(flat_pairs(views_of_pairs(fields@).subrange(0, 0)) =~= Seq::<Seq<u8>>::empty());
        assert(views_of(parts@) =~= head + flat_pairs(views_of_pairs(fields@).subrange(0, 0)));
    }
    let mut i: usize = 0;
    while i < fields.len()
        invariant
            i <= fields@.len(),
            head =~= seq![spec_lit_xadd_upper(), key@, entry_id@],
            views_of(parts@) =~= head + flat_pairs(views_of_pairs(fields@).subrange(0, i as int)),
        decreases fields@.len() - i,
    {
        let ghost parts_old = parts@;
        let f = clone_bytes(&fields[i].0);
        let v = clone_bytes(&fields[i].1);
        parts.push(f);
        parts.push(v);
        i = i + 1;
        proof {
            lemma_flat_pairs_push(
                views_of_pairs(fields@).subrange(0, i - 1),
                views_of_pairs(fields@)[i - 1],
            );
            assert(views_of_pairs(fields@).subrange(0, i as int) =~= views_of_pairs(
                fields@,
            ).subrange(0, i - 1).push(views_of_pairs(fields@)[i - 1]));
            assert(views_of_pairs(fields@)[i - 1] == (fields@[i - 1].0@, fields@[i - 1].1@));
            assert(views_of(parts@) =~= views_of(parts_old).push(f@).push(v@));
            assert(views_of(parts@) =~= head + flat_pairs(
                views_of_pairs(fields@).subrange(0, i as int),
            ));
        }
    }
    proof {
        assert(views_of_pairs(fields@).subrange(0, fields@.len() as int) =~= views_of_pairs(
            fields@,
        ));
    }
    encode_parts(parts)
}

pub open spec fn config_parts(keys: Seq<Seq<u8>>) -> Seq<Seq<u8>> {
    seq![spec_lit_config_upper(), spec_lit_get_upper()] + keys
}

pub fn config(section: &ConfigSection) -> (r: Vec<u8>)
    ensures
        section matches ConfigSection::Get { keys } ==> r@ =~= wire(config_parts(views_of(keys@))),
{
    let mut parts: Vec<Vec<u8>> = Vec::new();
    parts.push(lit_config_upper());
    parts.push(lit_get_upper());
    match section {
        ConfigSection::Get { keys } => {
            let ghost head = views_of(parts@);
            proof {
                assert(head =~= seq![spec_lit_config_upper(), spec_lit_get_upper()]);
                assert(views_of(parts@) =~= head + views_of(keys@).subrange(0, 0));
            }
            let mut i: usize = 0;
            while i < keys.len()
                invariant
                    i <= keys@.len(),
                    head =~= seq![spec_lit_config_upper(), spec_lit_get_upper()],
                    views_of(parts@) =~= head + views_of(keys@).subrange(0, i as int),
                decreases keys@.len() - i,
            {
                let ghost parts_old = parts@;
                let k = clone_bytes(&keys[i]);
                parts.push(k);
                i = i + 1;
                proof {
                    assert(views_of(keys@).subrange(0, i as int) =~= views_of(keys@).subrange(
                        0,
                        i - 1,
                    ).push(keys@[i - 1]@));
                    assert(views_of(parts@) =~= views_of(parts_old).push(keys@[i - 1]@));
                    assert(views_of(parts@) =~= head + views_of(keys@).subrange(0, i as int));
                }
            }
            proof {
                assert(views_of(keys@).subrange(0, keys@.len() as int) =~= views_of(keys@));
            }
        },
    }
    encode_parts(parts)
}

pub open spec fn info_parts(replication: bool) -> Seq<Seq<u8>> {
    seq![spec_lit_info_upper()] + (if replication {
        seq![spec_lit_replication()]
    } else {
        Seq::empty()
    })
}

pub fn info(section: InfoSection) -> (r: Vec<u8>)
    ensures
        r@ =~= wire(info_parts(section is Replication)),
{
    let mut parts: Vec<Vec<u8>> = Vec::new();
    parts.push(lit_info_upper());
    match section {
        InfoSection::Replication => {
            parts.push(lit_replication());
            proof {
                assert(views_of(parts@) =~= info_parts(true));
            }
        },
        InfoSection::Default => {
            proof {
                assert(views_of(parts@) =~= info_parts(false));
            }
        },
    }
    encode_parts(parts)
}

pub fn replconf_port(listening_port: u16) -> (r: Vec<u8>)
    ensures
        r@ =~= wire(
            seq![
                spec_lit_replconf_upper(),
                spec_lit_listening_port(),
                dec_rep(listening_port as nat),
            ],
        ),
{
    let mut parts: Vec<Vec<u8>> = Vec::new();
    parts.push(lit_replconf_upper());
    parts.push(lit_listening_port());
    parts.push(fmt_u64(listening_port as u64));
    proof {
        assert(views_of(parts@) =~= seq![
            spec_lit_replconf_upper(),
            spec_lit_listening_port(),
            dec_rep(listening_port as nat),
        ]);
    }
    encode_parts(parts)
}

pub open spec fn capa_parts(capabilities: Seq<Seq<u8>>) -> Seq<Seq<u8>> {
    seq![spec_lit_replconf_upper(), spec_lit_capa_lower()] + capabilities
}

pub fn replconf_capa(capabilities: &Vec<Vec<u8>>) -> (r: Vec<u8>)
    ensures
        r@ =~= wire(capa_parts(views_of(capabilities@))),
{
    let mut parts: Vec<Vec<u8>> = Vec::new();
    parts.push(lit_replconf_upper());
    parts.push(lit_capa_lower());
    let ghost head = views_of(parts@);
    proof {
        assert(head =~= seq![spec_lit_replconf_upper(), spec_lit_capa_lower()]);
        assert(views_of(parts@) =~= head + views_of(capabilities@).subrange(0, 0));
    }
    let mut i: usize = 0;
    while i < capabilities.len()
        invariant
            i <= capabilities@.len(),
            head =~= seq![spec_lit_replconf_upper(), spec_lit_capa_lower()],
            views_of(parts@) =~= head + views_of(capabilities@).subrange(0, i as int),
        decreases capabilities@.len() - i,
    {
        let ghost parts_old = parts@;
        let c = clone_bytes(&capabilities[i]);
        parts.push(c);
        i = i + 1;
        proof {
            assert(views_of(capabilities@).subrange(0, i as int) =~= views_of(
                capabilities@,
            ).subrange(0, i - 1).push(capabilities@[i - 1]@));
            assert(views_of(parts@) =~= views_of(parts_old).push(capabilities@[i - 1]@));
            assert(views_of(parts@) =~= head + views_of(capabilities@).subrange(0, i as int));
        }
    }
    proof {
        assert(views_of(capabilities@).subrange(0, capabilities@.len() as int) =~= views_of(
            capabilities@,
        ));
    }
    encode_parts(parts)
}

/// The probe a primary sends to ask every replica for its offset.
pub fn replconf_get_ack() -> (r: Vec<u8>)
    ensures
        r@ =~= wire(seq![spec_lit_replconf_upper(), spec_lit_getack_upper(), spec_lit_star()]),
{
    let mut parts: Vec<Vec<u8>> = Vec::new();
    parts.push(lit_replconf_upper());
    parts.push(lit_getack_upper());
    parts.push(lit_star());
    proof {
        assert(views_of(parts@) =~= seq![
            spec_lit_replconf_upper(),
            spec_lit_getack_upper(),
            spec_lit_star(),
        ]);
    }
    encode_parts(parts)
}

/// The reply a replica sends to a probe: its processed byte count.
pub fn replconf_ack(processed_bytes: u64) -> (r: Vec<u8>)
    ensures
        r@ =~= wire(
            seq![
                spec_lit_replconf_upper(),
                spec_lit_ack_upper(),
                dec_rep(processed_bytes as nat),
            ],
        ),
{
    let mut parts: Vec<Vec<u8>> = Vec::new();
    parts.push(lit_replconf_upper());
    parts.push(lit_ack_upper());
    parts.push(fmt_u64(processed_bytes));
    proof {
        assert(views_of(parts@) =~= seq![
            spec_lit_replconf_upper(),
            spec_lit_ack_upper(),
            dec_rep(processed_bytes as nat),
        ]);
    }
    encode_parts(parts)
}

pub fn psync(replication_id: &Vec<u8>, replication_offset: i64) -> (r: Vec<u8>)
    ensures
        r@ =~= wire(
            seq![
                spec_lit_psync_upper(),
                replication_id@,
                int_rep(replication_offset as int),
            ],
        ),
{
    let mut parts: Vec<Vec<u8>> = Vec::new();
    parts.push(lit_psync_upper());
    parts.push(clone_bytes(replication_id));
    parts.push(fmt_i64(replication_offset));
    proof {
        assert(views_of(parts@) =~= seq![
            spec_lit_psync_upper(),
            replication_id@,
            int_rep(replication_offset as int),
        ]);
    }
    encode_parts(parts)
}

pub fn wait(num_replicas: u64, timeout: u64) -> (r: Vec<u8>)
    ensures
        r@ =~= wire(
            seq![spec_lit_wait_upper(), dec_rep(num_replicas as nat), dec_rep(timeout as nat)],
        ),
{
    let mut parts: Vec<Vec<u8>> = Vec::new();
    parts.push(lit_wait_upper());
    parts.push(fmt_u64(num_replicas));
    parts.push(fmt_u64(timeout));
    proof {
        assert(views_of(parts@) =~= seq![
            spec_lit_wait_upper(),
            dec_rep(num_replicas as nat),
            dec_rep(timeout as nat),
        ]);
    }
    encode_parts(parts)
}

/// The parts of any command's wire form.
pub open spec fn command_parts(c: CommandModel, now: int) -> Seq<Seq<u8>> {
    match c {
        CommandModel::Ping => seq![spec_lit_ping_upper()],
        CommandModel::Echo { message } => seq![spec_lit_echo_upper(), message],
        CommandModel::ConfigGet { keys } => config_parts(keys),
        CommandModel::Get { key } => seq![spec_lit_get_upper(), key],
        CommandModel::SetValue { key, value, px } => set_parts(key, value, px, now),
        CommandModel::Keys { key } => seq![spec_lit_keys_upper(), key],
        CommandModel::TypeOf { key } => seq![spec_lit_type_upper(), key],
        CommandModel::XAdd { key, entry_id, fields } => xadd_parts(key, entry_id, fields),
        CommandModel::Info { replication } => info_parts(replication),
        CommandModel::ReplConfPort { port } => seq![
            spec_lit_replconf_upper(),
            spec_lit_listening_port(),
            dec_rep(port as nat),
        ],
        CommandModel::ReplConfCapa { capabilities } => capa_parts(capabilities),
        CommandModel::ReplConfGetAck => seq![
            spec_lit_replconf_upper(),
            spec_lit_getack_upper(),
            spec_lit_star(),
        ],
        CommandModel::ReplConfAck { processed_bytes } => seq![
            spec_lit_replconf_upper(),
            spec_lit_ack_upper(),
            dec_rep(processed_bytes as nat),
        ],
        CommandModel::PSync { replication_id, replication_offset } => seq![
            spec_lit_psync_upper(),
            replication_id,
            int_rep(replication_offset),
        ],
        CommandModel::Wait { num_replicas, timeout } => seq![
            spec_lit_wait_upper(),
            dec_rep(num_replicas as nat),
            dec_rep(timeout as nat),
        ],
    }
}

/// The bytes of a command on the wire.
pub open spec fn command_wire(c: CommandModel, now: int) -> Seq<u8> {
    wire(command_parts(c, now))
}

impl RedisCommand {
    /// Encodes this command as the primary and replica exchange it.
    pub fn to_bytes(&self, now_millis: u64) -> (r: Vec<u8>)
        ensures
            r@ =~= command_wire(view_command(*self), now_millis as int),
    {
        match self {
            RedisCommand::Server(RedisServerCommand::Ping) => ping(),
            RedisCommand::Server(RedisServerCommand::Echo { message }) => echo(message),
            RedisCommand::Server(RedisServerCommand::Config { section }) => config(section),
            RedisCommand::Store(RedisStoreCommand::Get { key }) => get(key),
            RedisCommand::Store(RedisStoreCommand::SetValue { key, value, px }) => set(
                key,
                value,
                *px,
                now_millis,
            ),
            RedisCommand::Store(RedisStoreCommand::Keys { key }) => keys(key),
            RedisCommand::Store(RedisStoreCommand::Type { key }) => ty(key),
            RedisCommand::Store(RedisStoreCommand::XAdd { key, entry_id, fields }) => xadd(
                key,
                entry_id,
                fields,
            ),
            RedisCommand::Replication(RedisReplicationCommand::Info { section }) => info(*section),
            RedisCommand::Replication(
                RedisReplicationCommand::ReplConf {
                    section: ReplConfSection::Port { listening_port },
                },
            ) => replconf_port(*listening_port),
            RedisCommand::Replication(
                RedisReplicationCommand::ReplConf { section: ReplConfSection::Capa { capabilities } },
            ) => replconf_capa(capabilities),
            RedisCommand::Replication(
                RedisReplicationCommand::ReplConf { section: ReplConfSection::GetAck },
            ) => replconf_get_ack(),
            RedisCommand::Replication(
                RedisReplicationCommand::ReplConf {
                    section: ReplConfSection::Ack { processed_bytes },
                },
            ) => replconf_ack(*processed_bytes),
            RedisCommand::Replication(
                RedisReplicationCommand::PSync { replication_id, replication_offset },
            ) => psync(replication_id, *replication_offset),
            RedisCommand::Replication(
                RedisReplicationCommand::Wait { num_replicas, timeout },
            ) => wait(*num_replicas, *timeout),
        }
    }
}

} // verus!
