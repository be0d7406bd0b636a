//! BCMP messages as plain values: the types a node tells apart, and what it
//! reads out of, or puts into, each body.
use vstd::prelude::*;

use crate::bytes::first_difference;

verus! {

/// A BCMP message type.
#[derive(Debug, Clone, Copy, PartialEq, Eq, Structural)]
pub enum MessageType {
    /// An acknowledgement.
    Ack,
    /// A periodic sign of life.
    Heartbeat,
    /// A ping.
    EchoRequest,
    /// The answer to a ping.
    EchoReply,
    /// A question about a device.
    DeviceInfoRequest,
    /// A device describing itself.
    DeviceInfoReply,
    /// A question about protocol capabilities.
    ProtocolCapsRequest,
    /// The answer to it.
    ProtocolCapsReply,
    /// A question about a node's neighbours.
    NeighborTableRequest,
    /// The answer to it.
    NeighborTableReply,
    /// A question about a node's resources.
    ResourceTableRequest,
    /// The answer to it.
    ResourceTableReply,
    /// A question about a neighbour's protocol.
    NeighborProtoRequest,
    /// The answer to it.
    NeighborProtoReply,
    /// A question about the time.
    SystemTimeRequest,
    /// The answer to it.
    SystemTimeResponse,
    /// An instruction to set the clock.
    SystemTimeSet,
    /// A question about a configuration key.
    ConfigGet,
    /// An instruction to set one.
    ConfigSet,
    /// An instruction to save a partition.
    ConfigCommit,
    /// A question about the stored keys.
    ConfigStatusRequest,
    /// The answer to it.
    ConfigStatusResponse,
    /// The value of a key.
    ConfigValue,
    /// A question about the network's state.
    NetStateRequest,
    /// The state of the power.
    PowerStateReply,
    /// An instruction to reboot.
    RebootRequest,
    /// An instruction to be quiet.
    NetAssertQuiet,
    /// The start of a firmware update.
    DfuStart,
    /// The end of one.
    DfuBootComplete,
    /// Any other type, by its number.
    Other(u16),
}

/// The fixed half of what a device says about itself.
#[derive(Debug, Clone, Copy, PartialEq, Eq)]
pub struct DeviceInfo {
    /// The device's node id.
    pub node_id: u64,
    /// Who made it.
    pub vendor_id: u16,
    /// What it is.
    pub product_id: u16,
    /// Its serial number.
    pub serial_num: [u8; 16],
    /// The commit its firmware was built from.
    pub git_sha: u32,
    /// Major firmware version.
    pub ver_major: u8,
    /// Minor firmware version.
    pub ver_minor: u8,
    /// Firmware revision.
    pub ver_rev: u8,
    /// Hardware revision.
    pub ver_hw: u8,
}

impl DeviceInfo {
    /// Whether two devices say the same about themselves.
    #[must_use]
    pub fn same(&self, other: &DeviceInfo) -> (r: bool)
        ensures
            r <==> *self == *other,
    {
        let same_serial = first_difference(&self.serial_num, &other.serial_num).is_none();
        proof {
            if same_serial {
                assert(self.serial_num =~= other.serial_num);
            }
        }
        same_serial && self.node_id == other.node_id && self.vendor_id == other.vendor_id
            && self.product_id == other.product_id && self.git_sha == other.git_sha
            && self.ver_major == other.ver_major && self.ver_minor == other.ver_minor
            && self.ver_rev == other.ver_rev && self.ver_hw == other.ver_hw
    }
}

/// A device describing itself, strings and all.
#[derive(Debug, Clone, Copy, PartialEq, Eq)]
pub struct DeviceInfoReply<'a> {
    /// The fixed half.
    pub info: DeviceInfo,
    /// Its firmware version, in words.
    pub version_string: &'a [u8],
    /// Its name.
    pub device_name: &'a [u8],
}

/// A heartbeat's body.
#[derive(Debug, Clone, Copy, PartialEq, Eq, Structural)]
pub struct Heartbeat {
    /// Microseconds since the sender started.
    pub time_since_boot_us: u64,
    /// Seconds the sender may stay silent before it counts as gone.
    pub liveliness_lease_dur_s: u32,
}

/// A ping's body.
#[derive(Debug, Clone, Copy, PartialEq, Eq)]
pub struct EchoRequest<'a> {
    /// Who is to answer; zero is everybody.
    pub target_node_id: u64,
    /// Chosen by the sender, echoed by the answer.
    pub id: u16,
    /// Chosen by the sender, echoed by the answer.
    pub seq_num: u16,
    /// Bytes to echo.
    pub payload: &'a [u8],
}

/// The body of a ping's answer.
#[derive(Debug, Clone, Copy, PartialEq, Eq)]
pub struct EchoReply<'a> {
    /// Who answers.
    pub node_id: u64,
    /// The request's `id`.
    pub id: u16,
    /// The request's `seq_num`.
    pub seq_num: u16,
    /// The request's payload.
    pub payload: &'a [u8],
}

impl<'a> EchoRequest<'a> {
    /// The reply `node_id` sends: the request with the target replaced by the
    /// answering node.
    pub open spec fn answered_by(self, node_id: u64) -> EchoReply<'a> {
        EchoReply { node_id, id: self.id, seq_num: self.seq_num, payload: self.payload }
    }

    /// The reply `node_id` sends to this request.
    pub fn into_reply(self, node_id: u64) -> (r: EchoReply<'a>)
        ensures
            r == self.answered_by(node_id),
    {
        EchoReply { node_id, id: self.id, seq_num: self.seq_num, payload: self.payload }
    }
}

/// What every system-time message starts with.
#[derive(Debug, Clone, Copy, PartialEq, Eq, Structural)]
pub struct SystemTimeHeader {
    /// Whom the message is for.
    pub target_node_id: u64,
    /// Who sent it.
    pub source_node_id: u64,
}

impl SystemTimeHeader {
    /// Whether `node_id` handles the message itself: it names the node, or
    /// nobody in particular.
    pub open spec fn local_to(self, node_id: u64) -> bool {
        self.target_node_id == 0 || self.target_node_id == node_id
    }

    /// Whether `node_id` handles the message itself rather than passing it on.
    #[must_use]
    pub fn is_local(&self, node_id: u64) -> (r: bool)
        ensures
            r == self.local_to(node_id),
    {
        self.target_node_id == 0 || self.target_node_id == node_id
    }
}

/// One port of a neighbour-table reply.
#[derive(Debug, Clone, Copy, PartialEq, Eq, Structural)]
pub struct PortInfo {
    /// 1 for a port whose link is up, 0 otherwise.
    pub state: u8,
    /// What sort of port it is. Never filled in.
    pub port_type: u8,
}

/// One neighbour of a neighbour-table reply.
#[derive(Debug, Clone, Copy, PartialEq, Eq, Structural)]
pub struct NeighborInfo {
    /// The neighbour's node id.
    pub node_id: u64,
    /// The port it was heard on.
    pub port: u8,
    /// 1 for a neighbour that is online, 0 otherwise.
    pub online: u8,
}

/// How a device-info request wants its answer used.
#[derive(Debug, Clone, Copy, PartialEq, Eq, Structural)]
pub enum InfoRequestKind {
    /// Keep it with the neighbour it describes.
    Cache,
    /// Hand it to the application.
    Report,
}

/// A sequenced request that awaits its reply.
#[derive(Debug, Clone, Copy, PartialEq, Eq, Structural)]
pub struct PendingRequest {
    /// The type that was sent.
    pub message_type: MessageType,
    /// The number it was sent with.
    pub seq_num: u32,
}

/// A ping's answer is in the name of whoever answers, and otherwise the ping:
/// the id and the number its sender chose, and its payload.
pub proof fn law_an_answer_repeats_the_ping_in_its_own_name(
    request: EchoRequest<'_>,
    node_id: u64,
    other: u64,
)
    ensures
        request.answered_by(node_id).node_id == node_id,
        request.answered_by(node_id).id == request.id,
        request.answered_by(node_id).seq_num == request.seq_num,
        request.answered_by(node_id).payload@ == request.payload@,
        node_id != other ==> request.answered_by(node_id) != request.answered_by(other),
{
}

/// A time message is for a node that it names, and for every node if it names
/// none.
pub proof fn law_a_time_message_is_for_whom_it_names(header: SystemTimeHeader, node_id: u64)
    ensures
        header.target_node_id == node_id ==> header.local_to(node_id),
        header.target_node_id == 0 ==> header.local_to(node_id),
        header.local_to(node_id) && header.target_node_id != 0 ==> header.target_node_id
            == node_id,
{
}

} // verus!
