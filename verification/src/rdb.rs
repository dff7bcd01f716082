//! The RDB snapshot a primary sends during a full resynchronization: a
//! fixed, minimal, empty database image, together with the configuration
//! that names where a database file would live on disk.

use vstd::prelude::*;

verus! {

/// The 88 bytes of the empty snapshot: the `REDIS0011` magic, auxiliary
/// metadata fields, and the closing opcode with its checksum.
pub open spec fn spec_empty_rdb() -> Seq<u8> {
    seq![82u8, 69u8, 68u8, 73u8, 83u8, 48u8, 48u8, 49u8, 49u8, 250u8, 9u8, 114u8, 101u8, 100u8, 105u8, 115u8, 45u8, 118u8, 101u8, 114u8, 5u8, 55u8, 46u8, 50u8, 46u8, 48u8, 250u8, 10u8, 114u8, 101u8, 100u8, 105u8, 115u8, 45u8, 98u8, 105u8, 116u8, 115u8, 192u8, 64u8, 250u8, 5u8, 99u8, 116u8, 105u8, 109u8, 101u8, 194u8, 109u8, 8u8, 188u8, 101u8, 250u8, 8u8, 117u8, 115u8, 101u8, 100u8, 45u8, 109u8, 101u8, 109u8, 194u8, 176u8, 196u8, 16u8, 0u8, 250u8, 8u8, 97u8, 111u8, 102u8, 45u8, 98u8, 97u8, 115u8, 101u8, 192u8, 0u8, 255u8, 240u8, 110u8, 59u8, 254u8, 192u8, 255u8, 90u8, 162u8]
}

/// The empty snapshot image sent inside a `PSYNC` reply.
pub fn empty_rdb() -> (r: Vec<u8>)
    ensures
        r@ =~= spec_empty_rdb(),
        r@.len() == 88,
{
    vec![82u8, 69u8, 68u8, 73u8, 83u8, 48u8, 48u8, 49u8, 49u8, 250u8, 9u8, 114u8, 101u8, 100u8, 105u8, 115u8, 45u8, 118u8, 101u8, 114u8, 5u8, 55u8, 46u8, 50u8, 46u8, 48u8, 250u8, 10u8, 114u8, 101u8, 100u8, 105u8, 115u8, 45u8, 98u8, 105u8, 116u8, 115u8, 192u8, 64u8, 250u8, 5u8, 99u8, 116u8, 105u8, 109u8, 101u8, 194u8, 109u8, 8u8, 188u8, 101u8, 250u8, 8u8, 117u8, 115u8, 101u8, 100u8, 45u8, 109u8, 101u8, 109u8, 194u8, 176u8, 196u8, 16u8, 0u8, 250u8, 8u8, 97u8, 111u8, 102u8, 45u8, 98u8, 97u8, 115u8, 101u8, 192u8, 0u8, 255u8, 240u8, 110u8, 59u8, 254u8, 192u8, 255u8, 90u8, 162u8]
}

pub struct RDBConfig {
    pub dir: Vec<u8>,
    pub file_name: Vec<u8>,
}

impl RDBConfig {
    pub fn new(dir: Vec<u8>, file_name: Vec<u8>) -> (r: Self)
        ensures
            r.dir == dir,
            r.file_name == file_name,
    {
        RDBConfig { dir, file_name }
    }
}

pub struct RDBPesistence {
    pub config: RDBConfig,
}

impl RDBPesistence {
    pub fn new(config: RDBConfig) -> (r: Self)
        ensures
            r.config == config,
    {
        RDBPesistence { config }
    }
}

} // verus!
