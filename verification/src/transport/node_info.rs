//! What this service tells of itself.

use vstd::prelude::*;

use crate::transport::handler;

verus! {

/// How many bytes the name of a node has at most.
pub const NAME_CAPACITY: usize = 50;

/// The bytes of a node's name, in a list of fixed capacity.
#[verifier::external_body]
pub struct NameBytes {
    bytes: heapless::Vec<u8, 50>,
}

/// The bytes in the list.
pub uninterp spec fn name_bytes(name: NameBytes) -> Seq<u8>;

/// `heapless::Vec::new` makes an empty list.
#[verifier::external_body]
fn empty_name() -> (name: NameBytes)
    ensures
        name_bytes(name) == Seq::<u8>::empty(),
{
    NameBytes { bytes: heapless::Vec::new() }
}

/// `heapless::Vec::push` appends a byte, unless the list is full.
#[verifier::external_body]
fn push_byte(name: &mut NameBytes, byte: u8) -> (pushed: Result<(), u8>)
    ensures
        if name_bytes(*old(name)).len() < NAME_CAPACITY {
            pushed is Ok && name_bytes(*final(name)) == name_bytes(*old(name)).push(byte)
        } else {
            pushed == Err::<(), u8>(byte) && name_bytes(*final(name)) == name_bytes(*old(name))
        },
{
    name.bytes.push(byte)
}

/// `heapless::Vec` as a slice, copied: the bytes in the list.
#[verifier::external_body]
fn copied_bytes(name: &NameBytes) -> (bytes: Vec<u8>)
    ensures
        bytes@ == name_bytes(*name),
{
    name.bytes.to_vec()
}

/// `rand::random` draws a value. Nothing holds of every outcome.
#[verifier::external_body]
fn random_unique_id() -> (unique_id: [u8; 16]) {
    rand::random()
}

/// Whether the unique ID was drawn at random.
pub closed spec fn was_drawn(unique_id: [u8; 16]) -> bool {
    call_ensures(random_unique_id, (), unique_id)
}

/// The GetInfo response of a node of this service.
pub struct NodeInfo {
    pub protocol_version: (u8, u8),
    pub hardware_version: (u8, u8),
    pub software_version: (u8, u8),
    pub software_vcs_revision_id: u64,
    pub unique_id: [u8; 16],
    pub name: NameBytes,
    pub software_image_crc: Vec<u64>,
    pub certificate_of_authenticity: Vec<u8>,
}

/// The name of a node of this service, cut off where it is too long.
pub open spec fn node_name(transport_name: Seq<char>) -> Seq<u8> {
    let bytes = vstd::utf8::encode_utf8("org.cyphal_service."@ + transport_name);
    if bytes.len() > NAME_CAPACITY {
        bytes.take(NAME_CAPACITY as int)
    } else {
        bytes
    }
}

/// Whether `info` describes a node of this service, apart from its unique ID.
pub open spec fn is_service_info(info: NodeInfo, transport_name: Seq<char>) -> bool {
    &&& info.protocol_version == (1u8, 0u8)
    &&& info.hardware_version == (0u8, 0u8)
    &&& info.software_version == (0u8, 1u8)
    &&& info.software_vcs_revision_id == 0
    &&& name_bytes(info.name) == node_name(transport_name)
    &&& info.software_image_crc@.len() == 0
    &&& info.certificate_of_authenticity@.len() == 0
}

impl NodeInfo {
    /// The bytes of the node's name.
    pub fn name_to_vec(&self) -> (bytes: Vec<u8>)
        ensures
            bytes@ == name_bytes(self.name),
    {
        copied_bytes(&self.name)
    }
}

/// Build the standard GetInfo response describing a node of this service, with a
/// unique ID drawn at random.
pub fn make_node_info(transport_name: &str) -> (info: NodeInfo)
    ensures
        is_service_info(info, transport_name@),
        was_drawn(info.unique_id),
{
    node_info_with(transport_name, random_unique_id())
}

/// Build the GetInfo response describing a node of this service with the given
/// unique ID.
pub fn node_info_with(transport_name: &str, unique_id: [u8; 16]) -> (info: NodeInfo)
    ensures
        is_service_info(info, transport_name@),
        info.unique_id == unique_id,
{
    let node_name = handler::detail_text("org.cyphal_service.", transport_name);
    let bytes = node_name.as_str().as_bytes();
    let mut name = empty_name();
    let mut i: usize = 0;
    assert(bytes@.take(0) =~= Seq::<u8>::empty());
    while i < bytes.len() && i < NAME_CAPACITY
        invariant
            i <= bytes@.len(),
            i <= NAME_CAPACITY,
            name_bytes(name) == bytes@.take(i as int),
        decreases bytes@.len() - i,
    {
        let _ = push_byte(&mut name, bytes[i]);
        assert(bytes@.take(i + 1) =~= bytes@.take(i as int).push(bytes@[i as int]));
        i = i + 1;
    }
    assert(bytes@.take(bytes@.len() as int) =~= bytes@);
    NodeInfo {
        protocol_version: (1, 0),
        hardware_version: (0, 0),
        software_version: (0, 1),
        software_vcs_revision_id: 0,
        unique_id,
        name,
        software_image_crc: Vec::new(),
        certificate_of_authenticity: Vec::new(),
    }
}

} // verus!
