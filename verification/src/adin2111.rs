//! The ADIN2111's packet ids: which egress a frame asks for, and which port a
//! frame came in on.
//!
//! Ports are 1-based on both sides, because the number goes into a nibble of
//! the IPv6 source address, where 0 means "unknown". An off-by-one here would
//! be invisible until two nodes disagreed about which wire a frame came from.
use vstd::prelude::*;

use crate::bytes::shorter;
use crate::port::Egress;

verus! {

/// Why a transfer failed.
#[allow(inconsistent_fields)]
#[derive(Debug, Clone, Copy, PartialEq, Eq, Structural)]
#[non_exhaustive]
pub enum PhyError {
    /// A port number the device does not have. Ports are 1-based, and 0 means
    /// "unknown", so it is never a transmit choice.
    NoSuchPort(u8),
    /// The frame is longer than a packet buffer.
    FrameTooLarge {
        /// Length of the frame.
        len: usize,
        /// What a buffer holds.
        capacity: usize,
    },
    /// The packet pool is empty.
    OutOfBuffers,
}

/// The ids the driver knows its egress choices by.
#[derive(Debug, Clone, Copy, PartialEq, Eq, Structural)]
pub struct PacketIds {
    /// Every port at once.
    pub all_ports: u32,
    /// Port 1.
    pub port1: u32,
    /// Port 2.
    pub port2: u32,
    /// The bits of a received id that hold the port.
    pub port_mask: u32,
}

/// The id that asks the driver for this egress, or nothing for a port the
/// device does not have.
pub open spec fn id_of(ids: PacketIds, egress: Egress) -> Option<u32> {
    match egress {
        Egress::AllPorts => Some(ids.all_ports),
        Egress::Port(port) => if port == 1 {
            Some(ids.port1)
        } else if port == 2 {
            Some(ids.port2)
        } else {
            None
        },
    }
}

/// The id that asks the driver for this egress.
///
/// `None` is a port the device does not have, which includes port 0.
#[must_use]
pub fn packet_id(ids: &PacketIds, egress: Egress) -> (r: Option<u32>)
    ensures
        r == id_of(*ids, egress),
{
    match egress {
        Egress::AllPorts => Some(ids.all_ports),
        Egress::Port(1) => Some(ids.port1),
        Egress::Port(2) => Some(ids.port2),
        Egress::Port(_) => None,
    }
}

/// The 1-based ingress port a received id reports. Anything the device could
/// not have sent becomes 0, "unknown": a receiver that cannot tell which wire
/// a frame came from must not guess.
#[must_use]
pub fn ingress_port(ids: &PacketIds, id: u32, port_count: u8) -> (r: u8)
    ensures
        ({
            let port = (id & ids.port_mask) as u8;
            r == if 1 <= port <= port_count { port } else { 0u8 }
        }),
{
    let port: u8 = (id & ids.port_mask) as u8;
    if port >= 1 && port <= port_count {
        port
    } else {
        0
    }
}

/// What a send comes to before the driver is asked: the id the frame is queued
/// under, or why it cannot be sent. `capacity` is what the packet buffer
/// holds, if the pool had one.
pub fn prepare_send(
    ids: &PacketIds,
    egress: Egress,
    len: usize,
    capacity: Option<usize>,
) -> (r: Result<u32, PhyError>)
    ensures
        r == match (id_of(*ids, egress), capacity) {
            (None, _) => Err(
                PhyError::NoSuchPort(
                    match egress {
                        Egress::Port(port) => port,
                        Egress::AllPorts => 0,
                    },
                ),
            ),
            (Some(_), None) => Err(PhyError::OutOfBuffers),
            (Some(id), Some(capacity)) => if len > capacity {
                Err(PhyError::FrameTooLarge { len, capacity })
            } else {
                Ok(id)
            },
        },
{
    match packet_id(ids, egress) {
        None => match egress {
            Egress::Port(port) => Err(PhyError::NoSuchPort(port)),
            Egress::AllPorts => Err(PhyError::NoSuchPort(0)),
        },
        Some(id) => match capacity {
            None => Err(PhyError::OutOfBuffers),
            Some(capacity) => if len > capacity {
                Err(PhyError::FrameTooLarge { len, capacity })
            } else {
                Ok(id)
            },
        },
    }
}

/// Whether the device has a link to report for `port`. The driver's own table
/// must not be asked about any other.
#[must_use]
pub fn has_port(port: u8, port_count: u8) -> (r: bool)
    ensures
        r <==> 1 <= port <= port_count,
{
    !(port == 0 || port > port_count)
}

/// How many bytes of a received packet fit a buffer.
#[must_use]
pub fn receive_len(packet_len: usize, buffer_len: usize) -> (r: usize)
    ensures
        r == shorter(packet_len as nat, buffer_len as nat),
{
    if packet_len <= buffer_len {
        packet_len
    } else {
        buffer_len
    }
}

/// A port number survives the trip through the driver: what was sent out on a
/// port the device has comes back, from a driver whose ids are their port
/// numbers, as that same port.
pub proof fn law_ports_are_one_based_on_both_sides(ids: PacketIds, port: u8, id: u32)
    requires
        ids.port1 == 1,
        ids.port2 == 2,
        ids.port_mask & 3 == 3,
        id_of(ids, Egress::Port(port)) == Some(id),
    ensures
        1 <= port <= 2,
        (id & ids.port_mask) as u8 == port,
{
    let mask = ids.port_mask;
    assert(1u32 & mask == 1 && 2u32 & mask == 2) by (bit_vector)
        requires
            mask & 3 == 3,
    ;
}

/// Each egress the device has goes by an id of its own: all ports at once, and
/// each of its two ports. It has no other.
pub proof fn law_each_egress_has_its_own_id(ids: PacketIds, a: Egress, b: Egress)
    requires
        ids.all_ports != ids.port1,
        ids.all_ports != ids.port2,
        ids.port1 != ids.port2,
    ensures
        id_of(ids, a) is Some && id_of(ids, a) == id_of(ids, b) ==> a == b,
        id_of(ids, Egress::AllPorts) == Some(ids.all_ports),
        a matches Egress::Port(port) ==> (id_of(ids, a) is Some <==> port == 1 || port == 2),
        a == Egress::Port(1) ==> id_of(ids, a) == Some(ids.port1),
        a == Egress::Port(2) ==> id_of(ids, a) == Some(ids.port2),
{
}

} // verus!
