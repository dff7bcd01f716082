//! A small builder for RESP arrays of bulk strings.

use vstd::prelude::*;

use crate::resp::RESPValue;

verus! {

#[derive(Debug)]
pub struct RESPBuilder;

impl RESPBuilder {
    pub fn array() -> (r: RESPArrayBuilder)
        ensures
            r.values@.len() == 0,
    {
        RESPArrayBuilder { values: Vec::new() }
    }
}

#[derive(Debug)]
pub struct RESPArrayBuilder {
    pub values: Vec<RESPValue>,
}

impl RESPArrayBuilder {
    /// Appends one bulk string element.
    pub fn bulk(self, value: Vec<u8>) -> (r: RESPArrayBuilder)
        ensures
            r.values@ =~= self.values@.push(RESPValue::BulkString(value)),
    {
        let mut values = self.values;
        values.push(RESPValue::BulkString(value));
        RESPArrayBuilder { values }
    }

    pub fn build(self) -> (r: RESPValue)
        ensures
            r == RESPValue::Array(self.values),
    {
        RESPValue::Array(self.values)
    }
}

} // verus!
