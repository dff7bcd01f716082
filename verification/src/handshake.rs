//! The replica's side of the handshake with its primary.
//!
//! Four steps: send `PING` and expect `PONG`; send the listening port and
//! expect `OK`; send the capabilities and expect `OK`; send `PSYNC ? -1`
//! and expect a `FULLRESYNC` line, after which the snapshot follows on the
//! same connection. Any other reply aborts the handshake.

use vstd::prelude::*;

use crate::encoding::{ping, replconf_port, replconf_capa, psync, wire, capa_parts};
use crate::keywords::{
    spec_lit_pong, spec_lit_ok, spec_lit_fullresync_prefix, spec_lit_psync2, spec_lit_ping_upper,
    spec_lit_replconf_upper, spec_lit_listening_port, spec_lit_psync_upper, spec_lit_question,
    lit_psync2, lit_question,
};
use crate::decimal::{dec_rep, int_rep};
use crate::resp::{RESPValue, ValueModel, view_value};

verus! {

#[derive(Debug, PartialEq, Eq, Clone, Copy)]
pub enum HandshakeState {
    AwaitPong,
    AwaitPortOk,
    AwaitCapaOk,
    AwaitFullResync,
    AwaitRdb,
    Done,
}

#[derive(Debug, PartialEq, Eq, Clone, Copy)]
pub enum HandshakeError {
    UnexpectedReply,
}

/// Whether `p` is a prefix of `s`.
pub open spec fn has_prefix(s: Seq<u8>, p: Seq<u8>) -> bool {
    s.len() >= p.len() && s.subrange(0, p.len() as int) == p
}

fn starts_with(data: &Vec<u8>, prefix: &Vec<u8>) -> (r: bool)
    ensures
        r == has_prefix(data@, prefix@),
{
    if data.len() < prefix.len() {
        proof {
            assert(!has_prefix(data@, prefix@));
        }
        return false;
    }
    let mut i: usize = 0;
    while i < prefix.len()
        invariant
            i <= prefix@.len() <= data@.len(),
            forall|j: int| 0 <= j < i ==> data@[j] == prefix@[j],
        decreases prefix@.len() - i,
    {
        if data[i] != prefix[i] {
            proof {
                assert(data@.subrange(0, prefix@.len() as int)[i as int] == data@[i as int]);
            }
            return false;
        }
        i = i + 1;
    }
    proof {
        assert(data@.subrange(0, prefix@.len() as int) =~= prefix@);
    }
    true
}

/// The handshake driver: `start` yields the first bytes to send; each
/// primary reply is fed to `on_reply`, which yields the next bytes, until
/// the snapshot is expected.
pub struct Handshake {
    pub state: HandshakeState,
    pub listening_port: u16,
}

impl Handshake {
    /// Begins the handshake: the replica introduces itself with `PING`.
    pub fn start(listening_port: u16) -> (r: (Handshake, Vec<u8>))
        ensures
            r.0.state == HandshakeState::AwaitPong,
            r.0.listening_port == listening_port,
            r.1@ =~= wire(seq![spec_lit_ping_upper()]),
    {
        (Handshake { state: HandshakeState::AwaitPong, listening_port }, ping())
    }

    /// Feeds one primary reply to the handshake. `Ok(Some(bytes))` is the
    /// next request to send; `Ok(None)` means the handshake header is
    /// complete and the snapshot bytes follow on the wire. A reply other
    /// than the expected one fails, and the state does not move.
    pub fn on_reply(&mut self, reply: &RESPValue) -> (r: Result<Option<Vec<u8>>, HandshakeError>)
        ensures
            final(self).listening_port == old(self).listening_port,
            match old(self).state {
                HandshakeState::AwaitPong => {
                    if view_value(*reply) == ValueModel::SimpleString(spec_lit_pong()) {
                        &&& (r matches Ok(Some(bytes)) && bytes@ =~= wire(
                            seq![
                                spec_lit_replconf_upper(),
                                spec_lit_listening_port(),
                                dec_rep(old(self).listening_port as nat),
                            ],
                        ))
                        &&& final(self).state == HandshakeState::AwaitPortOk
                    } else {
                        r is Err && final(self).state == old(self).state
                    }
                },
                HandshakeState::AwaitPortOk => {
                    if view_value(*reply) == ValueModel::SimpleString(spec_lit_ok()) {
                        &&& (r matches Ok(Some(bytes)) && bytes@ =~= wire(
                            capa_parts(seq![spec_lit_psync2()]),
                        ))
                        &&& final(self).state == HandshakeState::AwaitCapaOk
                    } else {
                        r is Err && final(self).state == old(self).state
                    }
                },
                HandshakeState::AwaitCapaOk => {
                    if view_value(*reply) == ValueModel::SimpleString(spec_lit_ok()) {
                        &&& (r matches Ok(Some(bytes)) && bytes@ =~= wire(
                            seq![spec_lit_psync_upper(), spec_lit_question(), int_rep(-1)],
                        ))
                        &&& final(self).state == HandshakeState::AwaitFullResync
                    } else {
                        r is Err && final(self).state == old(self).state
                    }
                },
                HandshakeState::AwaitFullResync => {
                    if (view_value(*reply) matches ValueModel::SimpleString(s) && has_prefix(
                        s,
                        spec_lit_fullresync_prefix(),
                    )) {
                        r matches Ok(None) && final(self).state == HandshakeState::AwaitRdb
                    } else {
                        r is Err && final(self).state == old(self).state
                    }
                },
                HandshakeState::AwaitRdb => r is Err && final(self).state == old(self).state,
                HandshakeState::Done => r is Err && final(self).state == old(self).state,
            },
    {
        match self.state {
            HandshakeState::AwaitPong => {
                let expected = crate::keywords::lit_pong();
                match reply {
                    RESPValue::SimpleString(s) => {
                        if crate::command::bytes_eq(s, &expected) {
                            self.state = HandshakeState::AwaitPortOk;
                            Ok(Some(replconf_port(self.listening_port)))
                        } else {
                            Err(HandshakeError::UnexpectedReply)
                        }
                    },
                    _ => Err(HandshakeError::UnexpectedReply),
                }
            },
            HandshakeState::AwaitPortOk => {
                let expected = crate::keywords::lit_ok();
                match reply {
                    RESPValue::SimpleString(s) => {
                        if crate::command::bytes_eq(s, &expected) {
                            self.state = HandshakeState::AwaitCapaOk;
                            let mut capas: Vec<Vec<u8>> = Vec::new();
                            capas.push(lit_psync2());
                            proof {
                                assert(crate::command::views_of(capas@) =~= seq![
                                    spec_lit_psync2(),
                                ]);
                            }
                            Ok(Some(replconf_capa(&capas)))
                        } else {
                            Err(HandshakeError::UnexpectedReply)
                        }
                    },
                    _ => Err(HandshakeError::UnexpectedReply),
                }
            },
            HandshakeState::AwaitCapaOk => {
                let expected = crate::keywords::lit_ok();
                match reply {
                    RESPValue::SimpleString(s) => {
                        if crate::command::bytes_eq(s, &expected) {
                            self.state = HandshakeState::AwaitFullResync;
                            let q = lit_question();
                            Ok(Some(psync(&q, -1)))
                        } else {
                            Err(HandshakeError::UnexpectedReply)
                        }
                    },
                    _ => Err(HandshakeError::UnexpectedReply),
                }
            },
            HandshakeState::AwaitFullResync => {
                let prefix = crate::keywords::lit_fullresync_prefix();
                match reply {
                    RESPValue::SimpleString(s) => {
                        if starts_with(s, &prefix) {
                            self.state = HandshakeState::AwaitRdb;
                            Ok(None)
                        } else {
                            Err(HandshakeError::UnexpectedReply)
                        }
                    },
                    _ => Err(HandshakeError::UnexpectedReply),
                }
            },
            HandshakeState::AwaitRdb => Err(HandshakeError::UnexpectedReply),
            HandshakeState::Done => Err(HandshakeError::UnexpectedReply),
        }
    }

    /// Records that the snapshot arrived in full; primary-originated
    /// commands follow on the same connection from here on.
    pub fn on_rdb(&mut self) -> (r: Result<(), HandshakeError>)
        ensures
            final(self).listening_port == old(self).listening_port,
            old(self).state == HandshakeState::AwaitRdb ==> r is Ok && final(self).state
                == HandshakeState::Done,
            old(self).state != HandshakeState::AwaitRdb ==> r is Err && final(self).state == old(
                self,
            ).state,
    {
        match self.state {
            HandshakeState::AwaitRdb => {
                self.state = HandshakeState::Done;
                Ok(())
            },
            _ => Err(HandshakeError::UnexpectedReply),
        }
    }
}

} // verus!
