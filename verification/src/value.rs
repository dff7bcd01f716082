//! A textual RESP value, for callers that deal in strings rather than
//! raw bytes.

use vstd::prelude::*;

verus! {

#[derive(Debug, PartialEq, Eq)]
pub enum RedisValue {
    SimpleString(String),
    BulkString(String),
    NullBulkString,
    Array(Vec<RedisValue>),
}

impl RedisValue {
    /// The payload of a bulk string; anything else has none.
    pub fn to_bulk_string(self) -> (r: Option<String>)
        ensures
            match self {
                RedisValue::BulkString(s) => r == Some(s),
                _ => r is None,
            },
    {
        if let RedisValue::BulkString(s) = self {
            Some(s)
        } else {
            None
        }
    }
}

} // verus!
