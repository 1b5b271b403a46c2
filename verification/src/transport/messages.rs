//! The Cyphal messages that the workers read.
//!
//! A payload that is shorter than its message is read as if zeros followed, and
//! what exceeds the message is ignored.

use vstd::prelude::*;

use crate::pnp::allocator::{AllocationDataV1, AllocationDataV2, NodeId};

verus! {

/// Subject of `uavcan.node.Heartbeat.1.0`.
pub const HEARTBEAT_SUBJECT: u16 = 7509;

/// Subject of `uavcan.pnp.NodeIDAllocationData.1.0`.
pub const PNP_V1_SUBJECT: u16 = 8166;

/// Subject of `uavcan.pnp.NodeIDAllocationData.2.0`.
pub const PNP_V2_SUBJECT: u16 = 8165;

/// Service of `uavcan.node.GetInfo.1.0`.
pub const GET_INFO_SERVICE: u16 = 430;

/// How many bytes of a heartbeat are received.
pub const HEARTBEAT_EXTENT: usize = 7;

/// How many bytes of an allocation message 1.0 are received.
pub const PNP_V1_EXTENT: usize = 9;

/// How many bytes of an allocation message 2.0 are received.
pub const PNP_V2_EXTENT: usize = 18;

/// How many bytes of a GetInfo response are received.
pub const GET_INFO_EXTENT: usize = 432;

/// Byte `i` of a payload, or zero behind its end.
pub open spec fn octet(payload: Seq<u8>, i: int) -> u8 {
    if 0 <= i < payload.len() {
        payload[i]
    } else {
        0
    }
}

/// The part of a payload of the given length, with zeros behind the end.
pub open spec fn octets(payload: Seq<u8>, from: int, len: nat) -> Seq<u8> {
    Seq::new(len, |i: int| octet(payload, from + i))
}

/// What a heartbeat says.
#[derive(Debug, Clone, Copy)]
pub struct HeartbeatData {
    pub uptime: u32,
    pub health: u8,
    pub mode: u8,
}

/// The heartbeat in a payload.
pub open spec fn heartbeat_of(payload: Seq<u8>) -> HeartbeatData {
    HeartbeatData {
        uptime: (octet(payload, 0) + 0x100 * octet(payload, 1) + 0x1_0000 * octet(payload, 2)
            + 0x100_0000 * octet(payload, 3)) as u32,
        health: octet(payload, 4) % 4,
        mode: octet(payload, 5) % 8,
    }
}

/// `Heartbeat::deserialize_from_bytes`: the uptime is the little-endian number in
/// the first four bytes, health the two low bits of the fifth and mode the three
/// low bits of the sixth. Every payload is accepted.
#[verifier::external_body]
pub(crate) fn read_heartbeat(payload: &[u8]) -> (heartbeat: Option<HeartbeatData>)
    ensures
        heartbeat == Some(heartbeat_of(payload@)),
{
    let read: Result<canadensis_data_types::uavcan::node::heartbeat_1_0::Heartbeat, _> =
        canadensis_encoding::Deserialize::deserialize_from_bytes(payload);
    read.ok().map(
        |h| HeartbeatData { uptime: h.uptime, health: h.health.value, mode: h.mode.value },
    )
}

/// `NodeIDAllocationData::deserialize_from_bytes`, version 2.0: the unique ID is
/// the third byte and the fifteen after it. Every payload is accepted. Nothing is
/// said of the node ID, whose byte order is that of the machine.
#[verifier::external_body]
pub(crate) fn read_allocation_v2(payload: &[u8]) -> (message: Option<AllocationDataV2>)
    ensures
        message is Some,
        message->0.unique_id@ == octets(payload@, 2, 16),
{
    let read: Result<
        canadensis_data_types::uavcan::pnp::node_id_allocation_data_2_0::NodeIDAllocationData,
        _,
    > = canadensis_encoding::Deserialize::deserialize_from_bytes(payload);
    read.ok().map(
        |m| AllocationDataV2 { node_id: NodeId { value: m.node_id.value }, unique_id: m.unique_id },
    )
}

/// The 48-bit hash in a payload, which is little-endian.
pub open spec fn hash_of(payload: Seq<u8>) -> u64 {
    (octet(payload, 0) + 0x100 * octet(payload, 1) + 0x1_0000 * octet(payload, 2) + 0x100_0000
        * octet(payload, 3) + 0x1_0000_0000 * octet(payload, 4) + 0x100_0000_0000 * octet(
        payload,
        5,
    )) as u64
}

/// `NodeIDAllocationData::deserialize_from_bytes`, version 1.0: the hash is the
/// little-endian number in the first six bytes, and the seventh tells how many
/// node IDs follow, at most one. Nothing is said of that node ID, whose byte order
/// is that of the machine.
#[verifier::external_body]
pub(crate) fn read_allocation_v1(payload: &[u8]) -> (message: Option<AllocationDataV1>)
    ensures
        message is Some <==> octet(payload@, 6) <= 1,
        message matches Some(m) ==> m.unique_id_hash == hash_of(payload@)
            && m.allocated_node_id@.len() == octet(payload@, 6),
{
    let read: Result<
        canadensis_data_types::uavcan::pnp::node_id_allocation_data_1_0::NodeIDAllocationData,
        _,
    > = canadensis_encoding::Deserialize::deserialize_from_bytes(payload);
    read.ok().map(
        |m| AllocationDataV1 {
            unique_id_hash: m.unique_id_hash,
            allocated_node_id: m.allocated_node_id.iter().map(|id| NodeId { value: id.value }).collect(),
        },
    )
}

/// What a node tells of itself in a GetInfo response.
#[derive(Debug)]
pub struct GetInfoData {
    pub hardware_version: (u8, u8),
    pub software_version: (u8, u8),
    pub unique_id: [u8; 16],
    pub name: Vec<u8>,
}

/// Whether a payload is a GetInfo response: its three lists (name, image CRC and
/// certificate, of at most 50, 1 and 222 items) are not too long. Each list is
/// preceded by its length, and a CRC has eight bytes.
pub open spec fn is_get_info(payload: Seq<u8>) -> bool {
    let name_len = octet(payload, 30);
    let crc_len = octet(payload, 31 + name_len);
    let certificate_len = octet(payload, 32 + name_len + 8 * crc_len);
    name_len <= 50 && crc_len <= 1 && certificate_len <= 222
}

/// Whether `data` is what the GetInfo response in a payload tells.
pub open spec fn tells(payload: Seq<u8>, data: GetInfoData) -> bool {
    &&& data.hardware_version == (octet(payload, 2), octet(payload, 3))
    &&& data.software_version == (octet(payload, 4), octet(payload, 5))
    &&& data.unique_id@ == octets(payload, 14, 16)
    &&& data.name@ == octets(payload, 31, octet(payload, 30) as nat)
}

/// `GetInfoResponse::deserialize_from_bytes`: a response is refused only for a
/// list that is too long, and its fields stand one behind the other.
#[verifier::external_body]
pub(crate) fn read_get_info(payload: &[u8]) -> (data: Option<GetInfoData>)
    ensures
        data is Some <==> is_get_info(payload@),
        data matches Some(d) ==> tells(payload@, d),
{
    let read: Result<canadensis_data_types::uavcan::node::get_info_1_0::GetInfoResponse, _> =
        canadensis_encoding::Deserialize::deserialize_from_bytes(payload);
    read.ok().map(
        |r| GetInfoData {
            hardware_version: (r.hardware_version.major, r.hardware_version.minor),
            software_version: (r.software_version.major, r.software_version.minor),
            unique_id: r.unique_id,
            name: r.name.to_vec(),
        },
    )
}

/// The text that bytes are shown as, with a replacement character wherever they
/// are not UTF-8.
pub uninterp spec fn lossy_text(bytes: Seq<u8>) -> Seq<char>;

/// `String::from_utf8_lossy`: bytes that are UTF-8 are decoded as they are.
#[verifier::external_body]
pub(crate) fn text_from(bytes: &Vec<u8>) -> (text: String)
    ensures
        text@ == lossy_text(bytes@),
        vstd::utf8::valid_utf8(bytes@) ==> text@ == vstd::utf8::decode_utf8(bytes@),
{
    String::from_utf8_lossy(bytes).into_owned()
}

} // verus!
