//! Connection identifiers. Each accepted connection gets the next
//! identifier; the largest value is reserved for the pseudo-client that
//! stands for the primary on a replica.

use vstd::prelude::*;

verus! {

#[derive(Debug, Clone, Copy, PartialEq, Eq, Hash)]
pub struct ClientId(pub u64);

impl ClientId {
    /// The sentinel for commands a replica receives from its primary.
    pub fn primary() -> (r: Self)
        ensures
            r.0 == u64::MAX,
    {
        ClientId(u64::MAX)
    }

    /// The identifier for the next accepted connection.
    pub fn next(&self) -> (r: Self)
        requires
            self.0 < u64::MAX,
        ensures
            r.0 == self.0 + 1,
    {
        ClientId(self.0 + 1)
    }
}

} // verus!
