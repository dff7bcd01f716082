//! Byte-string literals of the protocol, as both mathematical
//! sequences and executable vectors.

use vstd::prelude::*;

verus! {

/// `"get"`
pub open spec fn spec_lit_get() -> Seq<u8> {
    seq![103u8, 101u8, 116u8]
}

/// `"get"`
pub fn lit_get() -> (r: Vec<u8>)
    ensures
        r@ =~= spec_lit_get(),
{
    vec![103u8, 101u8, 116u8]
}

/// `"set"`
pub open spec fn spec_lit_set() -> Seq<u8> {
    seq![115u8, 101u8, 116u8]
}

/// `"set"`
pub fn lit_set() -> (r: Vec<u8>)
    ensures
        r@ =~= spec_lit_set(),
{
    vec![115u8, 101u8, 116u8]
}

/// `"keys"`
pub open spec fn spec_lit_keys() -> Seq<u8> {
    seq![107u8, 101u8, 121u8, 115u8]
}

/// `"keys"`
pub fn lit_keys() -> (r: Vec<u8>)
    ensures
        r@ =~= spec_lit_keys(),
{
    vec![107u8, 101u8, 121u8, 115u8]
}

/// `"type"`
pub open spec fn spec_lit_type() -> Seq<u8> {
    seq![116u8, 121u8, 112u8, 101u8]
}

/// `"type"`
pub fn lit_type() -> (r: Vec<u8>)
    ensures
        r@ =~= spec_lit_type(),
{
    vec![116u8, 121u8, 112u8, 101u8]
}

/// `"xadd"`
pub open spec fn spec_lit_xadd() -> Seq<u8> {
    seq![120u8, 97u8, 100u8, 100u8]
}

/// `"xadd"`
pub fn lit_xadd() -> (r: Vec<u8>)
    ensures
        r@ =~= spec_lit_xadd(),
{
    vec![120u8, 97u8, 100u8, 100u8]
}

/// `"ping"`
pub open spec fn spec_lit_ping() -> Seq<u8> {
    seq![112u8, 105u8, 110u8, 103u8]
}

/// `"ping"`
pub fn lit_ping() -> (r: Vec<u8>)
    ensures
        r@ =~= spec_lit_ping(),
{
    vec![112u8, 105u8, 110u8, 103u8]
}

/// `"echo"`
pub open spec fn spec_lit_echo() -> Seq<u8> {
    seq![101u8, 99u8, 104u8, 111u8]
}

/// `"echo"`
pub fn lit_echo() -> (r: Vec<u8>)
    ensures
        r@ =~= spec_lit_echo(),
{
    vec![101u8, 99u8, 104u8, 111u8]
}

/// `"config"`
pub open spec fn spec_lit_config() -> Seq<u8> {
    seq![99u8, 111u8, 110u8, 102u8, 105u8, 103u8]
}

/// `"config"`
pub fn lit_config() -> (r: Vec<u8>)
    ensures
        r@ =~= spec_lit_config(),
{
    vec![99u8, 111u8, 110u8, 102u8, 105u8, 103u8]
}

/// `"info"`
pub open spec fn spec_lit_info() -> Seq<u8> {
    seq![105u8, 110u8, 102u8, 111u8]
}

/// `"info"`
pub fn lit_info() -> (r: Vec<u8>)
    ensures
        r@ =~= spec_lit_info(),
{
    vec![105u8, 110u8, 102u8, 111u8]
}

/// `"replconf"`
pub open spec fn spec_lit_replconf() -> Seq<u8> {
    seq![114u8, 101u8, 112u8, 108u8, 99u8, 111u8, 110u8, 102u8]
}

/// `"replconf"`
pub fn lit_replconf() -> (r: Vec<u8>)
    ensures
        r@ =~= spec_lit_replconf(),
{
    vec![114u8, 101u8, 112u8, 108u8, 99u8, 111u8, 110u8, 102u8]
}

/// `"psync"`
pub open spec fn spec_lit_psync() -> Seq<u8> {
    seq![112u8, 115u8, 121u8, 110u8, 99u8]
}

/// `"psync"`
pub fn lit_psync() -> (r: Vec<u8>)
    ensures
        r@ =~= spec_lit_psync(),
{
    vec![112u8, 115u8, 121u8, 110u8, 99u8]
}

/// `"wait"`
pub open spec fn spec_lit_wait() -> Seq<u8> {
    seq![119u8, 97u8, 105u8, 116u8]
}

/// `"wait"`
pub fn lit_wait() -> (r: Vec<u8>)
    ensures
        r@ =~= spec_lit_wait(),
{
    vec![119u8, 97u8, 105u8, 116u8]
}

/// `"px"`
pub open spec fn spec_lit_px() -> Seq<u8> {
    seq![112u8, 120u8]
}

/// `"px"`
pub fn lit_px() -> (r: Vec<u8>)
    ensures
        r@ =~= spec_lit_px(),
{
    vec![112u8, 120u8]
}

/// `"replication"`
pub open spec fn spec_lit_replication() -> Seq<u8> {
    seq![114u8, 101u8, 112u8, 108u8, 105u8, 99u8, 97u8, 116u8, 105u8, 111u8, 110u8]
}

/// `"replication"`
pub fn lit_replication() -> (r: Vec<u8>)
    ensures
        r@ =~= spec_lit_replication(),
{
    vec![114u8, 101u8, 112u8, 108u8, 105u8, 99u8, 97u8, 116u8, 105u8, 111u8, 110u8]
}

/// `"listening-port"`
pub open spec fn spec_lit_listening_port() -> Seq<u8> {
    seq![108u8, 105u8, 115u8, 116u8, 101u8, 110u8, 105u8, 110u8, 103u8, 45u8, 112u8, 111u8, 114u8, 116u8]
}

/// `"listening-port"`
pub fn lit_listening_port() -> (r: Vec<u8>)
    ensures
        r@ =~= spec_lit_listening_port(),
{
    vec![108u8, 105u8, 115u8, 116u8, 101u8, 110u8, 105u8, 110u8, 103u8, 45u8, 112u8, 111u8, 114u8, 116u8]
}

/// `"capa"`
pub open spec fn spec_lit_capa() -> Seq<u8> {
    seq![99u8, 97u8, 112u8, 97u8]
}

/// `"capa"`
pub fn lit_capa() -> (r: Vec<u8>)
    ensures
        r@ =~= spec_lit_capa(),
{
    vec![99u8, 97u8, 112u8, 97u8]
}

/// `"ack"`
pub open spec fn spec_lit_ack() -> Seq<u8> {
    seq![97u8, 99u8, 107u8]
}

/// `"ack"`
pub fn lit_ack() -> (r: Vec<u8>)
    ensures
        r@ =~= spec_lit_ack(),
{
    vec![97u8, 99u8, 107u8]
}

/// `"getack"`
pub open spec fn spec_lit_getack() -> Seq<u8> {
    seq![103u8, 101u8, 116u8, 97u8, 99u8, 107u8]
}

/// `"getack"`
pub fn lit_getack() -> (r: Vec<u8>)
    ensures
        r@ =~= spec_lit_getack(),
{
    vec![103u8, 101u8, 116u8, 97u8, 99u8, 107u8]
}

/// `"*"`
pub open spec fn spec_lit_star() -> Seq<u8> {
    seq![42u8]
}

/// `"*"`
pub fn lit_star() -> (r: Vec<u8>)
    ensures
        r@ =~= spec_lit_star(),
{
    vec![42u8]
}

/// `"dir"`
pub open spec fn spec_lit_dir() -> Seq<u8> {
    seq![100u8, 105u8, 114u8]
}

/// `"dir"`
pub fn lit_dir() -> (r: Vec<u8>)
    ensures
        r@ =~= spec_lit_dir(),
{
    vec![100u8, 105u8, 114u8]
}

/// `"dbfilename"`
pub open spec fn spec_lit_dbfilename() -> Seq<u8> {
    seq![100u8, 98u8, 102u8, 105u8, 108u8, 101u8, 110u8, 97u8, 109u8, 101u8]
}

/// `"dbfilename"`
pub fn lit_dbfilename() -> (r: Vec<u8>)
    ensures
        r@ =~= spec_lit_dbfilename(),
{
    vec![100u8, 98u8, 102u8, 105u8, 108u8, 101u8, 110u8, 97u8, 109u8, 101u8]
}

/// `"PONG"`
pub open spec fn spec_lit_pong() -> Seq<u8> {
    seq![80u8, 79u8, 78u8, 71u8]
}

/// `"PONG"`
pub fn lit_pong() -> (r: Vec<u8>)
    ensures
        r@ =~= spec_lit_pong(),
{
    vec![80u8, 79u8, 78u8, 71u8]
}

/// `"OK"`
pub open spec fn spec_lit_ok() -> Seq<u8> {
    seq![79u8, 75u8]
}

/// `"OK"`
pub fn lit_ok() -> (r: Vec<u8>)
    ensures
        r@ =~= spec_lit_ok(),
{
    vec![79u8, 75u8]
}

/// `"FULLRESYNC "`
pub open spec fn spec_lit_fullresync_prefix() -> Seq<u8> {
    seq![70u8, 85u8, 76u8, 76u8, 82u8, 69u8, 83u8, 89u8, 78u8, 67u8, 32u8]
}

/// `"FULLRESYNC "`
pub fn lit_fullresync_prefix() -> (r: Vec<u8>)
    ensures
        r@ =~= spec_lit_fullresync_prefix(),
{
    vec![70u8, 85u8, 76u8, 76u8, 82u8, 69u8, 83u8, 89u8, 78u8, 67u8, 32u8]
}

/// `"?"`
pub open spec fn spec_lit_question() -> Seq<u8> {
    seq![63u8]
}

/// `"?"`
pub fn lit_question() -> (r: Vec<u8>)
    ensures
        r@ =~= spec_lit_question(),
{
    vec![63u8]
}

/// `"psync2"`
pub open spec fn spec_lit_psync2() -> Seq<u8> {
    seq![112u8, 115u8, 121u8, 110u8, 99u8, 50u8]
}

/// `"psync2"`
pub fn lit_psync2() -> (r: Vec<u8>)
    ensures
        r@ =~= spec_lit_psync2(),
{
    vec![112u8, 115u8, 121u8, 110u8, 99u8, 50u8]
}

/// `"role:master\nmaster_replid:"`
pub open spec fn spec_lit_role_master_prefix() -> Seq<u8> {
    seq![114u8, 111u8, 108u8, 101u8, 58u8, 109u8, 97u8, 115u8, 116u8, 101u8, 114u8, 10u8, 109u8, 97u8, 115u8, 116u8, 101u8, 114u8, 95u8, 114u8, 101u8, 112u8, 108u8, 105u8, 100u8, 58u8]
}

/// `"role:master\nmaster_replid:"`
pub fn lit_role_master_prefix() -> (r: Vec<u8>)
    ensures
        r@ =~= spec_lit_role_master_prefix(),
{
    vec![114u8, 111u8, 108u8, 101u8, 58u8, 109u8, 97u8, 115u8, 116u8, 101u8, 114u8, 10u8, 109u8, 97u8, 115u8, 116u8, 101u8, 114u8, 95u8, 114u8, 101u8, 112u8, 108u8, 105u8, 100u8, 58u8]
}

/// `"\nmaster_repl_offset:"`
pub open spec fn spec_lit_repl_offset_prefix() -> Seq<u8> {
    seq![10u8, 109u8, 97u8, 115u8, 116u8, 101u8, 114u8, 95u8, 114u8, 101u8, 112u8, 108u8, 95u8, 111u8, 102u8, 102u8, 115u8, 101u8, 116u8, 58u8]
}

/// `"\nmaster_repl_offset:"`
pub fn lit_repl_offset_prefix() -> (r: Vec<u8>)
    ensures
        r@ =~= spec_lit_repl_offset_prefix(),
{
    vec![10u8, 109u8, 97u8, 115u8, 116u8, 101u8, 114u8, 95u8, 114u8, 101u8, 112u8, 108u8, 95u8, 111u8, 102u8, 102u8, 115u8, 101u8, 116u8, 58u8]
}

/// `"role:slave"`
pub open spec fn spec_lit_role_slave() -> Seq<u8> {
    seq![114u8, 111u8, 108u8, 101u8, 58u8, 115u8, 108u8, 97u8, 118u8, 101u8]
}

/// `"role:slave"`
pub fn lit_role_slave() -> (r: Vec<u8>)
    ensures
        r@ =~= spec_lit_role_slave(),
{
    vec![114u8, 111u8, 108u8, 101u8, 58u8, 115u8, 108u8, 97u8, 118u8, 101u8]
}

/// `"string"`
pub open spec fn spec_lit_string() -> Seq<u8> {
    seq![115u8, 116u8, 114u8, 105u8, 110u8, 103u8]
}

/// `"string"`
pub fn lit_string() -> (r: Vec<u8>)
    ensures
        r@ =~= spec_lit_string(),
{
    vec![115u8, 116u8, 114u8, 105u8, 110u8, 103u8]
}

/// `"stream"`
pub open spec fn spec_lit_stream() -> Seq<u8> {
    seq![115u8, 116u8, 114u8, 101u8, 97u8, 109u8]
}

/// `"stream"`
pub fn lit_stream() -> (r: Vec<u8>)
    ensures
        r@ =~= spec_lit_stream(),
{
    vec![115u8, 116u8, 114u8, 101u8, 97u8, 109u8]
}

/// `"none"`
pub open spec fn spec_lit_none() -> Seq<u8> {
    seq![110u8, 111u8, 110u8, 101u8]
}

/// `"none"`
pub fn lit_none() -> (r: Vec<u8>)
    ensures
        r@ =~= spec_lit_none(),
{
    vec![110u8, 111u8, 110u8, 101u8]
}

/// `"REPLCONF"`
pub open spec fn spec_lit_replconf_upper() -> Seq<u8> {
    seq![82u8, 69u8, 80u8, 76u8, 67u8, 79u8, 78u8, 70u8]
}

/// `"REPLCONF"`
pub fn lit_replconf_upper() -> (r: Vec<u8>)
    ensures
        r@ =~= spec_lit_replconf_upper(),
{
    vec![82u8, 69u8, 80u8, 76u8, 67u8, 79u8, 78u8, 70u8]
}

/// `"GETACK"`
pub open spec fn spec_lit_getack_upper() -> Seq<u8> {
    seq![71u8, 69u8, 84u8, 65u8, 67u8, 75u8]
}

/// `"GETACK"`
pub fn lit_getack_upper() -> (r: Vec<u8>)
    ensures
        r@ =~= spec_lit_getack_upper(),
{
    vec![71u8, 69u8, 84u8, 65u8, 67u8, 75u8]
}

/// `"ACK"`
pub open spec fn spec_lit_ack_upper() -> Seq<u8> {
    seq![65u8, 67u8, 75u8]
}

/// `"ACK"`
pub fn lit_ack_upper() -> (r: Vec<u8>)
    ensures
        r@ =~= spec_lit_ack_upper(),
{
    vec![65u8, 67u8, 75u8]
}

/// `"PING"`
pub open spec fn spec_lit_ping_upper() -> Seq<u8> {
    seq![80u8, 73u8, 78u8, 71u8]
}

/// `"PING"`
pub fn lit_ping_upper() -> (r: Vec<u8>)
    ensures
        r@ =~= spec_lit_ping_upper(),
{
    vec![80u8, 73u8, 78u8, 71u8]
}

/// `"SET"`
pub open spec fn spec_lit_set_upper() -> Seq<u8> {
    seq![83u8, 69u8, 84u8]
}

/// `"SET"`
pub fn lit_set_upper() -> (r: Vec<u8>)
    ensures
        r@ =~= spec_lit_set_upper(),
{
    vec![83u8, 69u8, 84u8]
}

/// `"GET"`
pub open spec fn spec_lit_get_upper() -> Seq<u8> {
    seq![71u8, 69u8, 84u8]
}

/// `"GET"`
pub fn lit_get_upper() -> (r: Vec<u8>)
    ensures
        r@ =~= spec_lit_get_upper(),
{
    vec![71u8, 69u8, 84u8]
}

/// `"KEYS"`
pub open spec fn spec_lit_keys_upper() -> Seq<u8> {
    seq![75u8, 69u8, 89u8, 83u8]
}

/// `"KEYS"`
pub fn lit_keys_upper() -> (r: Vec<u8>)
    ensures
        r@ =~= spec_lit_keys_upper(),
{
    vec![75u8, 69u8, 89u8, 83u8]
}

/// `"TYPE"`
pub open spec fn spec_lit_type_upper() -> Seq<u8> {
    seq![84u8, 89u8, 80u8, 69u8]
}

/// `"TYPE"`
pub fn lit_type_upper() -> (r: Vec<u8>)
    ensures
        r@ =~= spec_lit_type_upper(),
{
    vec![84u8, 89u8, 80u8, 69u8]
}

/// `"XADD"`
pub open spec fn spec_lit_xadd_upper() -> Seq<u8> {
    seq![88u8, 65u8, 68u8, 68u8]
}

/// `"XADD"`
pub fn lit_xadd_upper() -> (r: Vec<u8>)
    ensures
        r@ =~= spec_lit_xadd_upper(),
{
    vec![88u8, 65u8, 68u8, 68u8]
}

/// `"ECHO"`
pub open spec fn spec_lit_echo_upper() -> Seq<u8> {
    seq![69u8, 67u8, 72u8, 79u8]
}

/// `"ECHO"`
pub fn lit_echo_upper() -> (r: Vec<u8>)
    ensures
        r@ =~= spec_lit_echo_upper(),
{
    vec![69u8, 67u8, 72u8, 79u8]
}

/// `"CONFIG"`
pub open spec fn spec_lit_config_upper() -> Seq<u8> {
    seq![67u8, 79u8, 78u8, 70u8, 73u8, 71u8]
}

/// `"CONFIG"`
pub fn lit_config_upper() -> (r: Vec<u8>)
    ensures
        r@ =~= spec_lit_config_upper(),
{
    vec![67u8, 79u8, 78u8, 70u8, 73u8, 71u8]
}

/// `"INFO"`
pub open spec fn spec_lit_info_upper() -> Seq<u8> {
    seq![73u8, 78u8, 70u8, 79u8]
}

/// `"INFO"`
pub fn lit_info_upper() -> (r: Vec<u8>)
    ensures
        r@ =~= spec_lit_info_upper(),
{
    vec![73u8, 78u8, 70u8, 79u8]
}

/// `"PSYNC"`
pub open spec fn spec_lit_psync_upper() -> Seq<u8> {
    seq![80u8, 83u8, 89u8, 78u8, 67u8]
}

/// `"PSYNC"`
pub fn lit_psync_upper() -> (r: Vec<u8>)
    ensures
        r@ =~= spec_lit_psync_upper(),
{
    vec![80u8, 83u8, 89u8, 78u8, 67u8]
}

/// `"WAIT"`
pub open spec fn spec_lit_wait_upper() -> Seq<u8> {
    seq![87u8, 65u8, 73u8, 84u8]
}

/// `"WAIT"`
pub fn lit_wait_upper() -> (r: Vec<u8>)
    ensures
        r@ =~= spec_lit_wait_upper(),
{
    vec![87u8, 65u8, 73u8, 84u8]
}

/// `"PX"`
pub open spec fn spec_lit_px_upper() -> Seq<u8> {
    seq![80u8, 88u8]
}

/// `"PX"`
pub fn lit_px_upper() -> (r: Vec<u8>)
    ensures
        r@ =~= spec_lit_px_upper(),
{
    vec![80u8, 88u8]
}

/// `"capa"`
pub open spec fn spec_lit_capa_lower() -> Seq<u8> {
    seq![99u8, 97u8, 112u8, 97u8]
}

/// `"capa"`
pub fn lit_capa_lower() -> (r: Vec<u8>)
    ensures
        r@ =~= spec_lit_capa_lower(),
{
    vec![99u8, 97u8, 112u8, 97u8]
}

/// `" "`
pub open spec fn spec_lit_space() -> Seq<u8> {
    seq![32u8]
}

/// `" "`
pub fn lit_space() -> (r: Vec<u8>)
    ensures
        r@ =~= spec_lit_space(),
{
    vec![32u8]
}

} // verus!