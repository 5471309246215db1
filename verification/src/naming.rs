//! The names under which data is stored: time-series buckets and
//! measurements, and the keys of the shared key-value store.

use vstd::prelude::*;
use vstd::string::StringExecFns;
use crate::text::{decimal, push_decimal, replace_char, replaced};

verus! {

/// How many buckets the devices of one protocol are spread over.
pub const BUCKET_SHARDS: u32 = 100;

/// The three parts joined by underscores.
pub open spec fn underscored(a: Seq<char>, b: Seq<char>, c: Seq<char>) -> Seq<char> {
    a + seq!['_'] + b + seq!['_'] + c
}

/// The bucket of device `id`: `{prefix}_{protocol}_{id mod 100}`.
pub open spec fn bucket_name(prefix: Seq<char>, protocol: Seq<char>, id: u32) -> Seq<char> {
    underscored(prefix, protocol, decimal((id % BUCKET_SHARDS) as nat))
}

/// The measurement of one device and identification code:
/// `{protocol}_{device_uid}_{identification_code}`.
pub open spec fn measurement_name(
    device_uid: Seq<char>,
    identification_code: Seq<char>,
    protocol: Seq<char>,
) -> Seq<char> {
    underscored(protocol, device_uid, identification_code)
}

/// The key of the list of signal definitions:
/// `signal:{device_uid}:{identification_code}`.
pub open spec fn signal_key(device_uid: Seq<char>, identification_code: Seq<char>) -> Seq<char> {
    "signal:"@ + device_uid + seq![':'] + identification_code
}

/// An address with its colons replaced by `@`.
pub open spec fn sanitized(address: Seq<char>) -> Seq<char> {
    replaced(address, ':', '@')
}

/// The key of a connection's liveness record: `tcp:last:{sanitized address}`.
pub open spec fn liveness_key(address: Seq<char>) -> Seq<char> {
    "tcp:last:"@ + sanitized(address)
}

/// The key of a node's hash from device id to address: `tcp_uid:{node}`.
pub open spec fn device_index_key(node: Seq<char>) -> Seq<char> {
    "tcp_uid:"@ + node
}

/// The key of a node's hash from address to device id: `tcp_uid_f:{node}`.
pub open spec fn address_index_key(node: Seq<char>) -> Seq<char> {
    "tcp_uid_f:"@ + node
}

/// The address a gateway node listens on: `{host}:{port}`.
pub open spec fn listen_address(host: Seq<char>, port: u16) -> Seq<char> {
    host + seq![':'] + decimal(port as nat)
}

/// Whether `uid` is the part of the peer id `id` before its first `@`: all
/// of `id` if it has none.
pub open spec fn is_peer_uid(uid: Seq<char>, id: Seq<char>) -> bool {
    &&& uid.len() <= id.len()
    &&& uid == id.take(uid.len() as int)
    &&& !uid.contains('@')
    &&& uid.len() < id.len() ==> id[uid.len() as int] == '@'
}

/// Devices whose ids leave the same remainder modulo the shard count share a
/// bucket.
pub proof fn lemma_bucket_of_congruent_ids(
    prefix: Seq<char>,
    protocol: Seq<char>,
    id: u32,
    other: u32,
)
    requires
        id % BUCKET_SHARDS == other % BUCKET_SHARDS,
    ensures
        bucket_name(prefix, protocol, id) == bucket_name(prefix, protocol, other),
{
}

/// A bucket name depends on the device id only through its remainder modulo
/// the shard count, which is below that count.
pub proof fn lemma_bucket_of_shard(prefix: Seq<char>, protocol: Seq<char>, id: u32)
    ensures
        id % BUCKET_SHARDS < BUCKET_SHARDS,
        bucket_name(prefix, protocol, id) == bucket_name(prefix, protocol, id % BUCKET_SHARDS),
{
}

/// The measurement name for one device and identification code.
pub fn gen_measurement(device_uid: &str, identification_code: &str, protocol: &str) -> (name:
    String)
    ensures
        name@ == measurement_name(device_uid@, identification_code@, protocol@),
{
    let mut name = String::from_str(protocol);
    name.push('_');
    name.append(device_uid);
    name.push('_');
    name.append(identification_code);
    name
}

/// The bucket name for device `id`.
pub fn calc_bucket_name(prefix: &str, protocol: &str, id: u32) -> (name: String)
    ensures
        name@ == bucket_name(prefix@, protocol@, id),
{
    let mut name = String::from_str(prefix);
    name.push('_');
    name.append(protocol);
    name.push('_');
    push_decimal(&mut name, (id % BUCKET_SHARDS) as u64);
    name
}

/// The key under which the signal definitions of a device and
/// identification code are listed.
pub fn signal_list_key(device_uid: &str, identification_code: &str) -> (key: String)
    ensures
        key@ == signal_key(device_uid@, identification_code@),
{
    let mut key = String::from_str("signal:");
    key.append(device_uid);
    key.push(':');
    key.append(identification_code);
    key
}

/// The key of the liveness record of the connection from `address`.
pub fn liveness_record_key(address: &str) -> (key: String)
    ensures
        key@ == liveness_key(address@),
{
    let mut key = String::from_str("tcp:last:");
    let clean = replace_char(address, ':', '@');
    key.append(clean.as_str());
    key
}

/// The key of the hash that maps the device ids bound on `node` to their
/// addresses.
pub fn device_index(node: &str) -> (key: String)
    ensures
        key@ == device_index_key(node@),
{
    let mut key = String::from_str("tcp_uid:");
    key.append(node);
    key
}

/// The key of the hash that maps the addresses connected to `node` to their
/// device ids.
pub fn address_index(node: &str) -> (key: String)
    ensures
        key@ == address_index_key(node@),
{
    let mut key = String::from_str("tcp_uid_f:");
    key.append(node);
    key
}

/// The address on which a node with this host and port listens.
pub fn node_listen_address(host: &str, port: u16) -> (address: String)
    ensures
        address@ == listen_address(host@, port),
{
    let mut address = String::from_str(host);
    address.push(':');
    push_decimal(&mut address, port as u64);
    address
}

/// The uid of a WebSocket peer: the part of its id before the first `@`.
pub fn peer_uid(id: &str) -> (uid: String)
    ensures
        is_peer_uid(uid@, id@),
{
    let mut uid = String::new();
    let mut open = true;
    for c in it: id.chars()
        invariant
            it.seq() == id@,
            uid@.len() <= it.index(),
            uid@ == id@.take(uid@.len() as int),
            !uid@.contains('@'),
            open ==> uid@.len() == it.index(),
            !open ==> uid@.len() < id@.len() && id@[uid@.len() as int] == '@',
    {
        if open {
            if c == '@' {
                open = false;
            } else {
                let ghost before = uid@;
                uid.push(c);
                proof {
                    assert(uid@ =~= id@.take(uid@.len() as int));
                    assert forall|k: int| 0 <= k < uid@.len() implies uid@[k] != '@' by {
                        if k < before.len() {
                            assert(before[k] == uid@[k]);
                            assert(before.contains(before[k]));
                        }
                    }
                }
            }
        }
    }
    uid
}

} // verus!
