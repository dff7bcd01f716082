//! Verified core of a Redis-protocol key-value server with primary/replica
//! replication: the RESP wire codec, the command model, the in-memory store
//! with lazy expiry, the replication bookkeeping (replicated, processed and
//! acknowledged byte counters, WAIT decisions), and the replica handshake
//! state machine. Networking, timers and task plumbing live outside this
//! crate and drive these functions with plain values.

use vstd::prelude::*;

pub mod command;
pub mod decimal;
pub mod encoding;
pub mod keywords;
pub mod laws;
pub mod handshake;
pub mod manager;
pub mod parser;
pub mod rdb;
pub mod replication;
pub mod resp;
pub mod resp_builder;
pub mod resp_stream;
pub mod roundtrip;
pub mod server;
pub mod store;
pub mod value;

verus! {

} // verus!
