//! The command model and the parser from RESP arrays to commands.
//!
//! A client request arrives as a RESP array of bulk strings. The first
//! element, lowercased, names the command; the rest are its arguments.
//! `spec_parse_command` is the grammar; `RedisCommand::try_from` is proved
//! to accept exactly the requests the grammar accepts, and to return the
//! command the grammar gives.

use vstd::prelude::*;

use crate::decimal::{digits_val, all_digits, lemma_digits_val_push};
use crate::keywords::{
    spec_lit_ping, spec_lit_echo, spec_lit_get, spec_lit_set, spec_lit_keys, spec_lit_type,
    spec_lit_xadd, spec_lit_config, spec_lit_info, spec_lit_replconf, spec_lit_psync,
    spec_lit_wait, spec_lit_px, spec_lit_replication, spec_lit_listening_port, spec_lit_capa,
    spec_lit_ack, spec_lit_getack, spec_lit_star,
    lit_ping, lit_echo, lit_get, lit_set, lit_keys, lit_type, lit_xadd, lit_config, lit_info,
    lit_replconf, lit_psync, lit_wait, lit_px, lit_replication, lit_listening_port, lit_capa,
    lit_ack, lit_getack, lit_star,
};
use crate::resp::RESPValue;

verus! {

#[derive(Debug, PartialEq, Eq, Clone, Copy)]
pub enum InfoSection {
    Replication,
    Default,
}

#[derive(Debug, PartialEq, Eq)]
pub enum ReplConfSection {
    Port { listening_port: u16 },
    Capa { capabilities: Vec<Vec<u8>> },
    GetAck,
    Ack { processed_bytes: u64 },
}

#[derive(Debug, PartialEq, Eq)]
pub enum RedisReplicationCommand {
    Info { section: InfoSection },
    ReplConf { section: ReplConfSection },
    PSync { replication_id: Vec<u8>, replication_offset: i64 },
    Wait { num_replicas: u64, timeout: u64 },
}

#[derive(Debug, PartialEq, Eq)]
pub enum ConfigSection {
    Get { keys: Vec<Vec<u8>> },
}

#[derive(Debug, PartialEq, Eq)]
pub enum RedisServerCommand {
    Ping,
    Echo { message: Vec<u8> },
    Config { section: ConfigSection },
}

#[derive(Debug, PartialEq, Eq)]
pub enum RedisStoreCommand {
    Get { key: Vec<u8> },
    SetValue { key: Vec<u8>, value: Vec<u8>, px: Option<u64> },
    Keys { key: Vec<u8> },
    Type { key: Vec<u8> },
    XAdd { key: Vec<u8>, entry_id: Vec<u8>, fields: Vec<(Vec<u8>, Vec<u8>)> },
}

#[derive(Debug, PartialEq, Eq)]
pub enum RedisCommand {
    Store(RedisStoreCommand),
    Server(RedisServerCommand),
    Replication(RedisReplicationCommand),
}

impl RedisStoreCommand {
    /// Only `SET` mutates replicated state.
    pub fn is_write(&self) -> (r: bool)
        ensures
            r == (self matches RedisStoreCommand::SetValue { .. }),
    {
        matches!(self, RedisStoreCommand::SetValue { .. })
    }
}

impl RedisCommand {
    /// The one command a replica answers on its primary connection.
    pub fn is_getack(&self) -> (r: bool)
        ensures
            r == (self matches RedisCommand::Replication(
                RedisReplicationCommand::ReplConf { section: ReplConfSection::GetAck },
            )),
    {
        matches!(
            self,
            RedisCommand::Replication(RedisReplicationCommand::ReplConf {
                section: ReplConfSection::GetAck,
            })
        )
    }
}

/// Mathematical form of a command.
pub enum CommandModel {
    Ping,
    Echo { message: Seq<u8> },
    ConfigGet { keys: Seq<Seq<u8>> },
    Get { key: Seq<u8> },
    SetValue { key: Seq<u8>, value: Seq<u8>, px: Option<int> },
    Keys { key: Seq<u8> },
    TypeOf { key: Seq<u8> },
    XAdd { key: Seq<u8>, entry_id: Seq<u8>, fields: Seq<(Seq<u8>, Seq<u8>)> },
    Info { replication: bool },
    ReplConfPort { port: u16 },
    ReplConfCapa { capabilities: Seq<Seq<u8>> },
    ReplConfGetAck,
    ReplConfAck { processed_bytes: int },
    PSync { replication_id: Seq<u8>, replication_offset: int },
    Wait { num_replicas: int, timeout: int },
}

pub open spec fn views_of(s: Seq<Vec<u8>>) -> Seq<Seq<u8>> {
    s.map_values(|v: Vec<u8>| v@)
}

pub open spec fn views_of_pairs(s: Seq<(Vec<u8>, Vec<u8>)>) -> Seq<(Seq<u8>, Seq<u8>)> {
    s.map_values(|p: (Vec<u8>, Vec<u8>)| (p.0@, p.1@))
}

/// The model that an executable command stands for.
pub open spec fn view_command(c: RedisCommand) -> CommandModel {
    match c {
        RedisCommand::Server(RedisServerCommand::Ping) => CommandModel::Ping,
        RedisCommand::Server(RedisServerCommand::Echo { message }) => CommandModel::Echo {
            message: message@,
        },
        RedisCommand::Server(
            RedisServerCommand::Config { section: ConfigSection::Get { keys } },
        ) => CommandModel::ConfigGet { keys: views_of(keys@) },
        RedisCommand::Store(RedisStoreCommand::Get { key }) => CommandModel::Get { key: key@ },
        RedisCommand::Store(RedisStoreCommand::SetValue { key, value, px }) => CommandModel::SetValue {
            key: key@,
            value: value@,
            px: match px {
                Some(t) => Some(t as int),
                None => None,
            },
        },
        RedisCommand::Store(RedisStoreCommand::Keys { key }) => CommandModel::Keys { key: key@ },
        RedisCommand::Store(RedisStoreCommand::Type { key }) => CommandModel::TypeOf { key: key@ },
        RedisCommand::Store(RedisStoreCommand::XAdd { key, entry_id, fields }) => {
            CommandModel::XAdd {
                key: key@,
                entry_id: entry_id@,
                fields: views_of_pairs(fields@),
            }
        },
        RedisCommand::Replication(RedisReplicationCommand::Info { section }) => {
            CommandModel::Info { replication: section is Replication }
        },
        RedisCommand::Replication(
            RedisReplicationCommand::ReplConf { section: ReplConfSection::Port { listening_port } },
        ) => CommandModel::ReplConfPort { port: listening_port },
        RedisCommand::Replication(
            RedisReplicationCommand::ReplConf { section: ReplConfSection::Capa { capabilities } },
        ) => CommandModel::ReplConfCapa { capabilities: views_of(capabilities@) },
        RedisCommand::Replication(
            RedisReplicationCommand::ReplConf { section: ReplConfSection::GetAck },
        ) => CommandModel::ReplConfGetAck,
        RedisCommand::Replication(
            RedisReplicationCommand::ReplConf { section: ReplConfSection::Ack { processed_bytes } },
        ) => CommandModel::ReplConfAck { processed_bytes: processed_bytes as int },
        RedisCommand::Replication(
            RedisReplicationCommand::PSync { replication_id, replication_offset },
        ) => CommandModel::PSync {
            replication_id: replication_id@,
            replication_offset: replication_offset as int,
        },
        RedisCommand::Replication(RedisReplicationCommand::Wait { num_replicas, timeout }) => {
            CommandModel::Wait {
                num_replicas: num_replicas as int,
                timeout: timeout as int,
            }
        },
    }
}

/// ASCII lowercasing, byte by byte.
pub open spec fn lower(s: Seq<u8>) -> Seq<u8> {
    s.map_values(
        |b: u8|
            if 65 <= b <= 90 {
                (b + 32) as u8
            } else {
                b
            },
    )
}

/// The bulk-string payloads of a value sequence; other values are skipped.
pub open spec fn bulk_parts(vs: Seq<RESPValue>) -> Seq<Seq<u8>>
    decreases vs,
{
    if vs.len() == 0 {
        Seq::empty()
    } else {
        (match vs[0] {
            RESPValue::BulkString(b) => seq![b@],
            _ => Seq::empty(),
        }) + bulk_parts(vs.subrange(1, vs.len() as int))
    }
}

pub proof fn lemma_bulk_parts_push(vs: Seq<RESPValue>, x: RESPValue)
    ensures
        bulk_parts(vs.push(x)) =~= bulk_parts(vs) + (match x {
            RESPValue::BulkString(b) => seq![b@],
            _ => Seq::<Seq<u8>>::empty(),
        }),
    decreases vs.len(),
{
    if vs.len() == 0 {
        assert(vs.push(x)[0] == x);
        assert(vs.push(x).subrange(1, vs.push(x).len() as int) =~= Seq::<RESPValue>::empty());
        assert(bulk_parts(Seq::<RESPValue>::empty()) =~= Seq::<Seq<u8>>::empty());
        assert(bulk_parts(vs) =~= Seq::<Seq<u8>>::empty());
    } else {
        lemma_bulk_parts_push(vs.subrange(1, vs.len() as int), x);
        assert(vs.push(x)[0] == vs[0]);
        assert(vs.push(x).subrange(1, vs.push(x).len() as int) =~= vs.subrange(
            1,
            vs.len() as int,
        ).push(x));
    }
}

/// An unsigned decimal as `u64` parsing accepts it: an optional plus sign,
/// then digits, with the value at most `u64::MAX`.
pub open spec fn spec_parse_unsigned(s: Seq<u8>) -> Option<int> {
    let ds = if s.len() > 0 && s[0] == 43 {
        s.subrange(1, s.len() as int)
    } else {
        s
    };
    if ds.len() == 0 || !all_digits(ds) {
        None
    } else if digits_val(ds) > 0xffff_ffff_ffff_ffff {
        None
    } else {
        Some(digits_val(ds) as int)
    }
}

/// A signed decimal as `i64` parsing accepts it.
pub open spec fn spec_parse_signed(s: Seq<u8>) -> Option<int> {
    if s.len() > 0 && s[0] == 45 {
        let ds = s.subrange(1, s.len() as int);
        if ds.len() == 0 || !all_digits(ds) {
            None
        } else if digits_val(ds) > 0x8000_0000_0000_0000 {
            None
        } else {
            Some(-(digits_val(ds) as int))
        }
    } else {
        match spec_parse_unsigned(s) {
            Some(v) => if v > 0x7fff_ffff_ffff_ffff {
                None
            } else {
                Some(v)
            },
            None => None,
        }
    }
}

/// Consecutive argument pairs; an odd tail is dropped.
pub open spec fn pair_seq(s: Seq<Seq<u8>>) -> Seq<(Seq<u8>, Seq<u8>)>
    decreases s.len(),
{
    if s.len() < 2 {
        Seq::empty()
    } else {
        seq![(s[0], s[1])] + pair_seq(s.subrange(2, s.len() as int))
    }
}

pub proof fn lemma_pair_seq_push2(s: Seq<Seq<u8>>, x: Seq<u8>, y: Seq<u8>)
    requires
        s.len() % 2 == 0,
    ensures
        pair_seq(s.push(x).push(y)) =~= pair_seq(s).push((x, y)),
    decreases s.len(),
{
    if s.len() == 0 {
        assert(s.push(x).push(y)[0] == x);
        assert(s.push(x).push(y)[1] == y);
        assert(s.push(x).push(y).subrange(2, 2) =~= Seq::<Seq<u8>>::empty());
        assert(pair_seq(s.push(x).push(y)) == seq![(x, y)] + pair_seq(
            s.push(x).push(y).subrange(2, 2),
        ));
        assert(pair_seq(Seq::<Seq<u8>>::empty()) =~= Seq::<(Seq<u8>, Seq<u8>)>::empty());
        assert(seq![(x, y)] + Seq::<(Seq<u8>, Seq<u8>)>::empty() =~= seq![(x, y)]);
        assert(pair_seq(s) =~= Seq::<(Seq<u8>, Seq<u8>)>::empty());
        assert(pair_seq(s).push((x, y)) =~= seq![(x, y)]);
    } else {
        let t = s.subrange(2, s.len() as int);
        lemma_pair_seq_push2(t, x, y);
        assert(s.push(x).push(y)[0] == s[0]);
        assert(s.push(x).push(y)[1] == s[1]);
        assert(s.push(x).push(y).subrange(2, s.len() as int + 2) =~= t.push(x).push(y));
    }
}

/// The expiry instant a `SET ... px <millis>` argument pair gives: the
/// current time plus the millisecond count, clamped to 64 bits.
pub open spec fn px_instant(now: int, ms: int) -> int {
    if now + ms > 0xffff_ffff_ffff_ffff {
        0xffff_ffff_ffff_ffff
    } else {
        now + ms
    }
}

/// The command grammar, over the bulk-string parts of the request array.
pub open spec fn spec_parse_command(parts: Seq<Seq<u8>>, now: int) -> Option<CommandModel> {
    if parts.len() == 0 {
        None
    } else {
        let name = lower(parts[0]);
        let args = parts.subrange(1, parts.len() as int);
        if name == spec_lit_ping() {
            Some(CommandModel::Ping)
        } else if name == spec_lit_echo() {
            if args.len() >= 1 {
                Some(CommandModel::Echo { message: args[0] })
            } else {
                None
            }
        } else if name == spec_lit_get() {
            if args.len() >= 1 {
                Some(CommandModel::Get { key: args[0] })
            } else {
                None
            }
        } else if name == spec_lit_set() {
            if args.len() >= 2 {
                Some(
                    CommandModel::SetValue {
                        key: args[0],
                        value: args[1],
                        px: if args.len() >= 4 && args[2] == spec_lit_px() {
                            match spec_parse_unsigned(args[3]) {
                                Some(ms) => Some(px_instant(now, ms)),
                                None => None,
                            }
                        } else {
                            None
                        },
                    },
                )
            } else {
                None
            }
        } else if name == spec_lit_keys() {
            if args.len() >= 1 {
                Some(CommandModel::Keys { key: args[0] })
            } else {
                None
            }
        } else if name == spec_lit_type() {
            if args.len() >= 1 {
                Some(CommandModel::TypeOf { key: args[0] })
            } else {
                None
            }
        } else if name == spec_lit_xadd() {
            if args.len() >= 2 && (args.len() - 2) % 2 == 0 {
                Some(
                    CommandModel::XAdd {
                        key: args[0],
                        entry_id: args[1],
                        fields: pair_seq(args.subrange(2, args.len() as int)),
                    },
                )
            } else {
                None
            }
        } else if name == spec_lit_config() {
            if args.len() >= 1 && lower(args[0]) == spec_lit_get() {
                Some(CommandModel::ConfigGet { keys: args.subrange(1, args.len() as int) })
            } else {
                None
            }
        } else if name == spec_lit_info() {
            Some(
                CommandModel::Info {
                    replication: args.len() >= 1 && args[0] == spec_lit_replication(),
                },
            )
        } else if name == spec_lit_replconf() {
            if args.len() == 0 {
                None
            } else {
                let section = lower(args[0]);
                if section == spec_lit_listening_port() {
                    if args.len() >= 2 {
                        match spec_parse_unsigned(args[1]) {
                            Some(p) => if p <= 0xffff {
                                Some(CommandModel::ReplConfPort { port: p as u16 })
                            } else {
                                None
                            },
                            None => None,
                        }
                    } else {
                        None
                    }
                } else if section == spec_lit_capa() {
                    Some(
                        CommandModel::ReplConfCapa {
                            capabilities: args.subrange(1, args.len() as int),
                        },
                    )
                } else if section == spec_lit_ack() {
                    if args.len() >= 2 {
                        match spec_parse_unsigned(args[1]) {
                            Some(n) => Some(CommandModel::ReplConfAck { processed_bytes: n }),
                            None => None,
                        }
                    } else {
                        None
                    }
                } else if section == spec_lit_getack() {
                    if args.len() >= 2 && args[1] == spec_lit_star() {
                        Some(CommandModel::ReplConfGetAck)
                    } else {
                        None
                    }
                } else {
                    None
                }
            }
        } else if name == spec_lit_psync() {
            if args.len() >= 2 {
                match spec_parse_signed(args[1]) {
                    Some(off) => Some(
                        CommandModel::PSync { replication_id: args[0], replication_offset: off },
                    ),
                    None => None,
                }
            } else {
                None
            }
        } else if name == spec_lit_wait() {
            if args.len() >= 2 {
                match (spec_parse_unsigned(args[0]), spec_parse_unsigned(args[1])) {
                    (Some(n), Some(t)) => Some(
                        CommandModel::Wait { num_replicas: n, timeout: t },
                    ),
                    _ => None,
                }
            } else {
                None
            }
        } else {
            None
        }
    }
}

/// Why a request was rejected.
#[derive(Debug, PartialEq, Eq, Clone, Copy)]
pub enum CommandError {
    NotAnArray,
    EmptyCommand,
    MissingArgument,
    InvalidArgument,
    UnknownCommand,
}

/// ASCII lowercase of a byte vector.
pub fn to_lower_bytes(v: &Vec<u8>) -> (r: Vec<u8>)
    ensures
        r@ =~= lower(v@),
{
    let mut out: Vec<u8> = Vec::new();
    let mut i: usize = 0;
    while i < v.len()
        invariant
            i <= v@.len(),
            out@ =~= lower(v@).subrange(0, i as int),
        decreases v@.len() - i,
    {
        let b = v[i];
        if 65 <= b && b <= 90 {
            out.push(b + 32);
        } else {
            out.push(b);
        }
        i = i + 1;
        proof {
            assert(out@ =~= lower(v@).subrange(0, i as int));
        }
    }
    proof {
        assert(lower(v@).subrange(0, v@.len() as int) =~= lower(v@));
    }
    out
}

/// `u64` decimal parsing of raw bytes.
pub fn parse_unsigned(bytes: &Vec<u8>) -> (r: Option<u64>)
    ensures
        match r {
            Some(v) => spec_parse_unsigned(bytes@) == Some(v as int),
            None => spec_parse_unsigned(bytes@) is None,
        },
{
    let start: usize = if bytes.len() > 0 && bytes[0] == 43 {
        1
    } else {
        0
    };
    let ghost ds = if bytes@.len() > 0 && bytes@[0] == 43 {
        bytes@.subrange(1, bytes@.len() as int)
    } else {
        bytes@
    };
    proof {
        assert(forall|k: int| 0 <= k < ds.len() ==> ds[k] == bytes@[start + k]);
    }
    if bytes.len() == start {
        return None;
    }
    let mut acc: u64 = 0;
    let mut j: usize = start;
    while j < bytes.len()
        invariant
            start <= j <= bytes@.len(),
            start <= 1,
            ds == (if bytes@.len() > 0 && bytes@[0] == 43 {
                bytes@.subrange(1, bytes@.len() as int)
            } else {
                bytes@
            }),
            ds.len() == bytes@.len() - start,
            start == 1 ==> bytes@.len() > 0 && bytes@[0] == 43,
            forall|k: int| 0 <= k < ds.len() ==> ds[k] == bytes@[start + k],
            all_digits(ds.subrange(0, j - start)),
            acc == digits_val(ds.subrange(0, j - start)),
            acc <= 0xffff_ffff_ffff_ffff,
        decreases bytes@.len() - j,
    {
        let b = bytes[j];
        if b < 48 || b > 57 {
            proof {
                assert(ds[j - start] == bytes@[j as int]);
                assert(!crate::decimal::is_digit(ds[j - start]));
                assert(!all_digits(ds));
            }
            return None;
        }
        let d: u64 = (b - 48) as u64;
        let next: u128 = (acc as u128) * 10 + (d as u128);
        proof {
            lemma_digits_val_push(ds.subrange(0, j - start), ds[j - start]);
            assert(ds.subrange(0, j + 1 - start) =~= ds.subrange(0, j - start).push(
                ds[j - start],
            ));
        }
        if next > 0xffff_ffff_ffff_ffff {
            proof {
                assert(all_digits(ds.subrange(0, j + 1 - start)));
                lemma_digits_prefix_overflow(ds, j + 1 - start);
            }
            return None;
        }
        acc = next as u64;
        j = j + 1;
    }
    proof {
        assert(ds.subrange(0, ds.len() as int) =~= ds);
    }
    Some(acc)
}

/// If some prefix of a digit string is already too large, so is the whole.
proof fn lemma_digits_prefix_overflow(ds: Seq<u8>, p: int)
    requires
        0 <= p <= ds.len(),
        all_digits(ds.subrange(0, p)),
        digits_val(ds.subrange(0, p)) > 0xffff_ffff_ffff_ffff,
    ensures
        spec_parse_unsigned_of(ds) is None,
{
    if all_digits(ds) {
        assert(ds.subrange(0, p) =~= ds.take(p));
        crate::decimal::lemma_digits_val_prefix_le(ds, p);
        assert(ds.take(ds.len() as int) =~= ds);
    }
}

/// The digit-string part of unsigned parsing, for reuse in proofs.
pub open spec fn spec_parse_unsigned_of(ds: Seq<u8>) -> Option<int> {
    if ds.len() == 0 || !all_digits(ds) {
        None
    } else if digits_val(ds) > 0xffff_ffff_ffff_ffff {
        None
    } else {
        Some(digits_val(ds) as int)
    }
}

/// Byte-vector equality, reflected into the views.
pub fn bytes_eq(a: &Vec<u8>, b: &Vec<u8>) -> (r: bool)
    ensures
        r == (a@ == b@),
{
    let r = *a == *b;
    proof {
        if r {
            assert(a@ =~= b@);
        }
    }
    r
}

/// A fresh copy of a byte vector.
pub fn clone_bytes(v: &Vec<u8>) -> (r: Vec<u8>)
    ensures
        r@ =~= v@,
{
    let mut out: Vec<u8> = Vec::new();
    let mut i: usize = 0;
    while i < v.len()
        invariant
            i <= v@.len(),
            out@ =~= v@.subrange(0, i as int),
        decreases v@.len() - i,
    {
        let b = v[i];
        out.push(b);
        i = i + 1;
        proof {
            assert(out@ =~= v@.subrange(0, i as int));
        }
    }
    proof {
        assert(v@.subrange(0, v@.len() as int) =~= v@);
    }
    out
}

/// `i64` decimal parsing of raw bytes.
pub fn parse_signed(bytes: &Vec<u8>) -> (r: Option<i64>)
    ensures
        match r {
            Some(v) => spec_parse_signed(bytes@) == Some(v as int),
            None => spec_parse_signed(bytes@) is None,
        },
{
    if bytes.len() > 0 && bytes[0] == 45 {
        let mut rest: Vec<u8> = Vec::new();
        let mut i: usize = 1;
        while i < bytes.len()
            invariant
                1 <= i <= bytes@.len(),
                bytes@.len() > 0,
                rest@ =~= bytes@.subrange(1, i as int),
            decreases bytes@.len() - i,
        {
            let b = bytes[i];
            rest.push(b);
            i = i + 1;
            proof {
                assert(rest@ =~= bytes@.subrange(1, i as int));
            }
        }
        let ghost ds = bytes@.subrange(1, bytes@.len() as int);
        proof {
            assert(rest@ =~= ds);
        }
        if rest.len() == 0 {
            return None;
        }
        if rest[0] == 43 {
            // a sign after the minus sign is not a digit
            return None;
        }
        match parse_unsigned(&rest) {
            Some(v) => {
                proof {
                    assert(spec_parse_unsigned(ds) == spec_parse_unsigned_of(ds));
                }
                if v <= 0x8000_0000_0000_0000 {
                    let value: i64 = if v == 0x8000_0000_0000_0000 {
                        i64::MIN
                    } else {
                        -(v as i64)
                    };
                    Some(value)
                } else {
                    None
                }
            },
            None => None,
        }
    } else {
        match parse_unsigned(bytes) {
            Some(v) => {
                if v <= 0x7fff_ffff_ffff_ffff {
                    Some(v as i64)
                } else {
                    None
                }
            },
            None => None,
        }
    }
}


impl RedisCommand {
    /// Parses a client request. The request must be a RESP array; its
    /// bulk-string elements are the command name and arguments, and the
    /// grammar `spec_parse_command` decides exactly which requests are
    /// accepted. `now_millis` anchors the absolute expiry that a
    /// `SET ... px` argument denotes.
    #[verifier::rlimit(100)]
    pub fn try_from(value: RESPValue, now_millis: u64) -> (r: Result<RedisCommand, CommandError>)
        ensures
            match value {
                RESPValue::Array(vs) => match r {
                    Ok(c) => spec_parse_command(bulk_parts(vs@), now_millis as int) == Some(
                        view_command(c),
                    ),
                    Err(e) => spec_parse_command(bulk_parts(vs@), now_millis as int) is None,
                },
                _ => r is Err,
            },
    {
        let values = match value.into_array() {
            Some(v) => v,
            None => {
                return Err(CommandError::NotAnArray);
            },
        };
        let mut parts: Vec<Vec<u8>> = Vec::new();
        let mut i: usize = 0;
        while i < values.len()
            invariant
                i <= values@.len(),
                views_of(parts@) =~= bulk_parts(values@.take(i as int)),
            decreases values@.len() - i,
        {
            let ghost parts_old = parts@;
            match &values[i] {
                RESPValue::BulkString(b) => {
                    let copy = clone_bytes(b);
                    parts.push(copy);
                },
                _ => {},
            }
            i = i + 1;
            proof {
                lemma_bulk_parts_push(values@.take(i - 1), values@[i - 1]);
                assert(values@.take(i as int) =~= values@.take(i - 1).push(values@[i - 1]));
                assert(views_of(parts@) =~= bulk_parts(values@.take(i as int)));
            }
        }
        proof {
            assert(values@.take(values@.len() as int) =~= values@);
        }
        let ghost ps = bulk_parts(values@);
        proof {
            assert(views_of(parts@) =~= ps);
            assert(forall|k: int| 0 <= k < parts@.len() ==> ps[k] == #[trigger] parts@[k]@);
        }
        if parts.len() == 0 {
            return Err(CommandError::EmptyCommand);
        }
        let ghost args = ps.subrange(1, ps.len() as int);
        proof {
            assert(forall|k: int| 0 <= k < args.len() ==> args[k] == ps[k + 1]);
        }
        let name = to_lower_bytes(&parts[0]);
        let kw_ping = lit_ping();
        let kw_echo = lit_echo();
        let kw_get = lit_get();
        let kw_set = lit_set();
        let kw_keys = lit_keys();
        let kw_type = lit_type();
        let kw_xadd = lit_xadd();
        let kw_config = lit_config();
        let kw_info = lit_info();
        let kw_replconf = lit_replconf();
        let kw_psync = lit_psync();
        let kw_wait = lit_wait();
        if bytes_eq(&name, &kw_ping) {
            Ok(RedisCommand::Server(RedisServerCommand::Ping))
        } else if bytes_eq(&name, &kw_echo) {
            if parts.len() >= 2 {
                let message = clone_bytes(&parts[1]);
                Ok(RedisCommand::Server(RedisServerCommand::Echo { message }))
            } else {
                Err(CommandError::MissingArgument)
            }
        } else if bytes_eq(&name, &kw_get) {
            if parts.len() >= 2 {
                let key = clone_bytes(&parts[1]);
                Ok(RedisCommand::Store(RedisStoreCommand::Get { key }))
            } else {
                Err(CommandError::MissingArgument)
            }
        } else if bytes_eq(&name, &kw_set) {
            if parts.len() >= 3 {
                let key = clone_bytes(&parts[1]);
                let value = clone_bytes(&parts[2]);
                let kw_px = lit_px();
                let px: Option<u64> = if parts.len() >= 5 && bytes_eq(&parts[3], &kw_px) {
                    match parse_unsigned(&parts[4]) {
                        Some(ms) => {
                            if ms > 0xffff_ffff_ffff_ffffu64 - now_millis {
                                Some(0xffff_ffff_ffff_ffffu64)
                            } else {
                                Some(now_millis + ms)
                            }
                        },
                        None => None,
                    }
                } else {
                    None
                };
                Ok(RedisCommand::Store(RedisStoreCommand::SetValue { key, value, px }))
            } else {
                Err(CommandError::MissingArgument)
            }
        } else if bytes_eq(&name, &kw_keys) {
            if parts.len() >= 2 {
                let key = clone_bytes(&parts[1]);
                Ok(RedisCommand::Store(RedisStoreCommand::Keys { key }))
            } else {
                Err(CommandError::MissingArgument)
            }
        } else if bytes_eq(&name, &kw_type) {
            if parts.len() >= 2 {
                let key = clone_bytes(&parts[1]);
                Ok(RedisCommand::Store(RedisStoreCommand::Type { key }))
            } else {
                Err(CommandError::MissingArgument)
            }
        } else if bytes_eq(&name, &kw_xadd) {
            if parts.len() >= 3 && (parts.len() - 3) % 2 == 0 {
                let key = clone_bytes(&parts[1]);
                let entry_id = clone_bytes(&parts[2]);
                let ghost rest = ps.subrange(3, ps.len() as int);
                proof {
                    assert(args.subrange(2, args.len() as int) =~= rest);
                }
                let mut fields: Vec<(Vec<u8>, Vec<u8>)> = Vec::new();
                let mut k: usize = 3;
                while k < parts.len() && k + 1 < parts.len()
                    invariant
                        3 <= k <= parts@.len(),
                        (k - 3) % 2 == 0,
                        (parts@.len() - 3) % 2 == 0,
                        rest == ps.subrange(3, ps.len() as int),
                        ps.len() == parts@.len(),
                        forall|t: int| 0 <= t < parts@.len() ==> ps[t] == #[trigger] parts@[t]@,
                        views_of_pairs(fields@) =~= pair_seq(rest.subrange(0, k - 3)),
                    decreases parts@.len() - k,
                {
                    let f = clone_bytes(&parts[k]);
                    let v = clone_bytes(&parts[k + 1]);
                    let ghost fields_old = fields@;
                    fields.push((f, v));
                    proof {
                        lemma_pair_seq_push2(rest.subrange(0, k - 3), rest[k - 3], rest[k - 2]);
                        assert(rest.subrange(0, k - 1) =~= rest.subrange(0, k - 3).push(
                            rest[k - 3],
                        ).push(rest[k - 2]));
                        assert(views_of_pairs(fields@) =~= views_of_pairs(fields_old).push(
                            (f@, v@),
                        ));
                        assert(views_of_pairs(fields@) =~= pair_seq(rest.subrange(0, k - 1)));
                    }
                    k = k + 2;
                }
                proof {
                    assert(k == parts@.len());
                    assert(rest.subrange(0, rest.len() as int) =~= rest);
                }
                Ok(RedisCommand::Store(RedisStoreCommand::XAdd { key, entry_id, fields }))
            } else {
                Err(CommandError::MissingArgument)
            }
        } else if bytes_eq(&name, &kw_config) {
            if parts.len() >= 2 {
                let section = to_lower_bytes(&parts[1]);
                if bytes_eq(&section, &kw_get) {
                    let mut keys: Vec<Vec<u8>> = Vec::new();
                    let mut k: usize = 2;
                    while k < parts.len()
                        invariant
                            2 <= k <= parts@.len(),
                            ps.len() == parts@.len(),
                            forall|t: int|
                                0 <= t < parts@.len() ==> ps[t] == #[trigger] parts@[t]@,
                            views_of(keys@) =~= ps.subrange(2, k as int),
                        decreases parts@.len() - k,
                    {
                        let ghost keys_old = keys@;
                        let key = clone_bytes(&parts[k]);
                        keys.push(key);
                        k = k + 1;
                        proof {
                            assert(views_of(keys@) =~= views_of(keys_old).push(parts@[k - 1]@));
                            assert(views_of(keys@) =~= ps.subrange(2, k as int));
                        }
                    }
                    proof {
                        assert(args.subrange(1, args.len() as int) =~= ps.subrange(
                            2,
                            ps.len() as int,
                        ));
                    }
                    Ok(
                        RedisCommand::Server(
                            RedisServerCommand::Config { section: ConfigSection::Get { keys } },
                        ),
                    )
                } else {
                    Err(CommandError::UnknownCommand)
                }
            } else {
                Err(CommandError::MissingArgument)
            }
        } else if bytes_eq(&name, &kw_info) {
            let kw_replication = lit_replication();
            let section = if parts.len() >= 2 && bytes_eq(&parts[1], &kw_replication) {
                InfoSection::Replication
            } else {
                InfoSection::Default
            };
            Ok(RedisCommand::Replication(RedisReplicationCommand::Info { section }))
        } else if bytes_eq(&name, &kw_replconf) {
            if parts.len() >= 2 {
                let section = to_lower_bytes(&parts[1]);
                let kw_lp = lit_listening_port();
                let kw_capa = lit_capa();
                let kw_ack = lit_ack();
                let kw_getack = lit_getack();
                if bytes_eq(&section, &kw_lp) {
                    if parts.len() >= 3 {
                        match parse_unsigned(&parts[2]) {
                            Some(p) => {
                                if p <= 0xffff {
                                    Ok(
                                        RedisCommand::Replication(
                                            RedisReplicationCommand::ReplConf {
                                                section: ReplConfSection::Port {
                                                    listening_port: p as u16,
                                                },
                                            },
                                        ),
                                    )
                                } else {
                                    Err(CommandError::InvalidArgument)
                                }
                            },
                            None => Err(CommandError::InvalidArgument),
                        }
                    } else {
                        Err(CommandError::MissingArgument)
                    }
                } else if bytes_eq(&section, &kw_capa) {
                    let mut capabilities: Vec<Vec<u8>> = Vec::new();
                    let mut k: usize = 2;
                    while k < parts.len()
                        invariant
                            2 <= k <= parts@.len(),
                            ps.len() == parts@.len(),
                            forall|t: int|
                                0 <= t < parts@.len() ==> ps[t] == #[trigger] parts@[t]@,
                            views_of(capabilities@) =~= ps.subrange(2, k as int),
                        decreases parts@.len() - k,
                    {
                        let ghost caps_old = capabilities@;
                        let c = clone_bytes(&parts[k]);
                        capabilities.push(c);
                        k = k + 1;
                        proof {
                            assert(views_of(capabilities@) =~= views_of(caps_old).push(
                                parts@[k - 1]@,
                            ));
                            assert(views_of(capabilities@) =~= ps.subrange(2, k as int));
                        }
                    }
                    proof {
                        assert(args.subrange(1, args.len() as int) =~= ps.subrange(
                            2,
                            ps.len() as int,
                        ));
                    }
                    Ok(
                        RedisCommand::Replication(
                            RedisReplicationCommand::ReplConf {
                                section: ReplConfSection::Capa { capabilities },
                            },
                        ),
                    )
                } else if bytes_eq(&section, &kw_ack) {
                    if parts.len() >= 3 {
                        match parse_unsigned(&parts[2]) {
                            Some(n) => Ok(
                                RedisCommand::Replication(
                                    RedisReplicationCommand::ReplConf {
                                        section: ReplConfSection::Ack { processed_bytes: n },
                                    },
                                ),
                            ),
                            None => Err(CommandError::InvalidArgument),
                        }
                    } else {
                        Err(CommandError::MissingArgument)
                    }
                } else if bytes_eq(&section, &kw_getack) {
                    let kw_star = lit_star();
                    if parts.len() >= 3 && bytes_eq(&parts[2], &kw_star) {
                        Ok(
                            RedisCommand::Replication(
                                RedisReplicationCommand::ReplConf {
                                    section: ReplConfSection::GetAck,
                                },
                            ),
                        )
                    } else {
                        Err(CommandError::InvalidArgument)
                    }
                } else {
                    Err(CommandError::UnknownCommand)
                }
            } else {
                Err(CommandError::MissingArgument)
            }
        } else if bytes_eq(&name, &kw_psync) {
            if parts.len() >= 3 {
                match parse_signed(&parts[2]) {
                    Some(off) => {
                        let replication_id = clone_bytes(&parts[1]);
                        Ok(
                            RedisCommand::Replication(
                                RedisReplicationCommand::PSync {
                                    replication_id,
                                    replication_offset: off,
                                },
                            ),
                        )
                    },
                    None => Err(CommandError::InvalidArgument),
                }
            } else {
                Err(CommandError::MissingArgument)
            }
        } else if bytes_eq(&name, &kw_wait) {
            if parts.len() >= 3 {
                match (parse_unsigned(&parts[1]), parse_unsigned(&parts[2])) {
                    (Some(n), Some(t)) => Ok(
                        RedisCommand::Replication(
                            RedisReplicationCommand::Wait { num_replicas: n, timeout: t },
                        ),
                    ),
                    _ => Err(CommandError::InvalidArgument),
                }
            } else {
                Err(CommandError::MissingArgument)
            }
        } else {
            Err(CommandError::UnknownCommand)
        }
    }
}


} // verus!
