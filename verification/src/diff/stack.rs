//! The identity both sides of a comparison have, and a PHY that records what
//! it is given.
use vstd::prelude::*;

use crate::bytes::copied;
use crate::message::DeviceInfo;
use crate::node::Node;
use crate::port::{Egress, Identity, Phy};

verus! {

/// Ports the capture device reports.
pub const NUM_PORTS: u8 = 2;

/// Node id both sides are brought up with.
pub const NODE_ID: u64 = 0xC0FF_EE00_1234_5678;

/// Vendor id both sides are brought up with.
pub const VENDOR_ID: u16 = 0xBEEF;

/// Product id both sides are brought up with.
pub const PRODUCT_ID: u16 = 0x0042;

/// Git SHA both sides are brought up with.
pub const GIT_SHA: u32 = 0x1234_5678;

/// Hardware revision both sides are brought up with.
pub const HW_VERSION: u8 = 3;

/// Firmware version both sides are brought up with.
pub const FIRMWARE_VERSION: (u8, u8, u8) = (1, 2, 4);

/// Serial number both sides are brought up with: `bm-wire-diff`, then zeros.
pub const SERIAL_NUMBER: [u8; 16] = [
    0x62, 0x6d, 0x2d, 0x77, 0x69, 0x72, 0x65, 0x2d, 0x64, 0x69, 0x66, 0x66, 0, 0, 0, 0,
];

/// Device name both sides are brought up with: `stack-oracle`.
pub const DEVICE_NAME: [u8; 12] = [
    0x73, 0x74, 0x61, 0x63, 0x6b, 0x2d, 0x6f, 0x72, 0x61, 0x63, 0x6c, 0x65,
];

/// Version string both sides are brought up with: `0.0.0-diff`.
pub const VERSION_STRING: [u8; 10] = [
    0x30, 0x2e, 0x30, 0x2e, 0x30, 0x2d, 0x64, 0x69, 0x66, 0x66,
];

/// The identity the reference stack was brought up with.
///
/// Comparators that put the same question to both sides need them to have
/// nothing to differ about but their code, so both read their configuration
/// from the constants above.
#[derive(Debug, Clone, Copy)]
pub struct OracleIdentity;

impl Identity for OracleIdentity {
    open spec fn id(&self) -> u64 {
        NODE_ID
    }

    open spec fn info(&self) -> DeviceInfo {
        DeviceInfo {
            node_id: 0,
            vendor_id: VENDOR_ID,
            product_id: PRODUCT_ID,
            serial_num: SERIAL_NUMBER,
            git_sha: GIT_SHA,
            ver_major: FIRMWARE_VERSION.0,
            ver_minor: FIRMWARE_VERSION.1,
            ver_rev: FIRMWARE_VERSION.2,
            ver_hw: HW_VERSION,
        }
    }

    open spec fn version(&self) -> Seq<u8> {
        VERSION_STRING@
    }

    open spec fn name(&self) -> Seq<u8> {
        DEVICE_NAME@
    }

    fn node_id(&self) -> (r: u64) {
        NODE_ID
    }

    fn device_info(&self) -> (r: DeviceInfo) {
        DeviceInfo {
            node_id: 0,
            vendor_id: VENDOR_ID,
            product_id: PRODUCT_ID,
            serial_num: SERIAL_NUMBER,
            git_sha: GIT_SHA,
            ver_major: FIRMWARE_VERSION.0,
            ver_minor: FIRMWARE_VERSION.1,
            ver_rev: FIRMWARE_VERSION.2,
            ver_hw: HW_VERSION,
        }
    }

    fn version_string(&self) -> (r: &[u8]) {
        &VERSION_STRING
    }

    fn device_name(&self) -> (r: &[u8]) {
        &DEVICE_NAME
    }
}

/// A node with the reference's identity and port count, and every link up.
pub fn node<const PING_PAYLOAD: usize>() -> (r: Node<OracleIdentity, PING_PAYLOAD>)
    ensures
        r.id() == NODE_ID,
        r.ports() == NUM_PORTS,
        forall|p: u8| #[trigger] crate::links::in_mask(r.links(), p) <==> 1 <= p <= NUM_PORTS,
        r.next_ping() == 0,
        r.pinged_at() == 0,
        r.expected_echo() is None,
        r.well_formed(),
{
    let mut node = Node::new(OracleIdentity, NUM_PORTS);
    proof {
        assert forall|p: u8| !#[trigger] crate::links::in_mask(node.links(), p) by {
            let bit: u16 = (p - 1) as u16;
            assert(0u16 & (1u16 << bit) == 0) by (bit_vector);
        }
    }
    node.set_link_up(1, true);
    node.set_link_up(2, true);
    node
}

/// A PHY that records what it is given and never receives anything.
#[derive(Debug)]
pub struct CapturePhy {
    /// Every frame handed to the PHY, as `(egress port, bytes)`, in order. A
    /// port of 0 is every port at once.
    pub sent: Vec<(u8, Vec<u8>)>,
}

/// Why a [`CapturePhy`] transfer failed. Only receiving does.
#[derive(Debug, Clone, Copy, PartialEq, Eq, Structural)]
pub struct Unreachable;

impl Default for CapturePhy {
    fn default() -> (r: Self)
        ensures
            r.sent@ == Seq::<(u8, Vec<u8>)>::empty(),
    {
        CapturePhy { sent: Vec::new() }
    }
}

impl CapturePhy {
    /// The number a capture records for an egress: the port, or 0 for all of
    /// them.
    pub open spec fn recorded(egress: Egress) -> u8 {
        match egress {
            Egress::AllPorts => 0,
            Egress::Port(port) => port,
        }
    }

    /// Record a frame.
    pub fn send(&mut self, frame: &[u8], egress: Egress)
        ensures
            final(self).sent@.len() == old(self).sent@.len() + 1,
            final(self).sent@.drop_last() == old(self).sent@,
            final(self).sent@.last().0 == Self::recorded(egress),
            final(self).sent@.last().1@ == frame@,
    {
        let port = match egress {
            Egress::AllPorts => 0,
            Egress::Port(port) => port,
        };
        self.sent.push((port, copied(frame)));
        assert(self.sent@.drop_last() =~= old(self).sent@);
    }

    /// Nothing is ever received.
    pub fn receive(&mut self) -> (r: Result<(u8, usize), Unreachable>)
        ensures
            r == Err::<(u8, usize), Unreachable>(Unreachable),
            final(self).sent == old(self).sent,
    {
        Err(Unreachable)
    }
}

impl Phy for CapturePhy {
    open spec fn ports(&self) -> u8 {
        NUM_PORTS
    }

    fn port_count(&self) -> (r: u8) {
        NUM_PORTS
    }

    fn link_up(&self, port: u8) -> (r: bool)
        ensures
            r <==> 1 <= port <= NUM_PORTS,
    {
        1 <= port && port <= NUM_PORTS
    }
}

/// Whether the reference has settled after a round of its tasks: each round
/// moves a message on by one task, so it takes at least `minimum` of them, and
/// then one in which no new frame appeared.
#[must_use]
pub fn is_quiet(round: u32, minimum: u32, frames_before: u32, frames_now: u32) -> (r: bool)
    ensures
        r <==> round + 1 >= minimum && frames_now == frames_before,
{
    (round as u64) + 1 >= (minimum as u64) && frames_now == frames_before
}

/// Most rounds the reference is given to settle.
pub const MAX_ROUNDS: u32 = 32;

/// The reference's own node is known by its id and describes itself as it was
/// built; what goes to all ports is recorded under zero, and what goes to one
/// under its number.
pub proof fn law_the_reference_describes_itself_as_it_was_built(egress: Egress, other: Egress)
    ensures
        OracleIdentity.id() == 0xC0FF_EE00_1234_5678,
        OracleIdentity.info().vendor_id == VENDOR_ID,
        OracleIdentity.info().product_id == PRODUCT_ID,
        OracleIdentity.info().serial_num@ == SERIAL_NUMBER@,
        OracleIdentity.info().git_sha == GIT_SHA,
        OracleIdentity.info().ver_major == FIRMWARE_VERSION.0,
        OracleIdentity.info().ver_minor == FIRMWARE_VERSION.1,
        OracleIdentity.info().ver_rev == FIRMWARE_VERSION.2,
        OracleIdentity.info().ver_hw == HW_VERSION,
        OracleIdentity.version() == VERSION_STRING@,
        OracleIdentity.name() == DEVICE_NAME@,
        CapturePhy::recorded(Egress::AllPorts) == 0,
        egress matches Egress::Port(port) ==> CapturePhy::recorded(egress) == port,
        egress is Port && other is Port && CapturePhy::recorded(egress) == CapturePhy::recorded(
            other,
        ) ==> egress == other,
{
}

} // verus!
