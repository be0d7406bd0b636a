//! Comparing what the link layer puts on the wire for a frame it is handed:
//! the egress port it stamps, the checksum it patches for that, the order of
//! the ports and the restored buffer, all as bytes.
use vstd::prelude::*;

use crate::bytes::{
    be_bytes, copied, le, le_bytes, lemma_be_bytes_len, lemma_le_bytes_len, overlay, push_be,
    push_le, put, shorter,
};
use crate::diff::compare::{captures_view, diverges, same_frames, Captured, FrameDivergence};
use crate::diff::domain::Domain;
use crate::diff::forward::LINK_LOCAL_OTHER;
use crate::diff::frames::{blank, blank_frame, Unsealed};
use crate::diff::stack::NUM_PORTS;
use crate::frame::{
    Address, BCMP_HEADER_LEN, GLOBAL_MULTICAST, LINK_LOCAL_MULTICAST, MIN_FRAME_WITH_ADDRESSES,
};
use crate::fuzz::{
    draw_bool, draw_rest, draw_sized, draw_u16, draw_u64, draw_u8, padded, rest, sized, source,
    past_sized, unread,
};
use crate::message::MessageType;
use crate::node::{transfers, transmit, Transfer, TxKind};
use arbitrary::Unstructured;

verus! {

/// Largest body the comparison will build.
pub const MAX_BODY: usize = 256;

/// Length of a UDP header.
pub const UDP_HEADER_LEN: usize = 8;

/// Where a UDP datagram's length stands in a frame.
pub const UDP_LENGTH_OFFSET: usize = 58;

/// Where a UDP datagram's checksum stands in a frame.
pub const UDP_CHECKSUM_OFFSET: usize = 60;

/// Where an upper layer requests an egress port: byte 13 of the destination
/// address.
pub const REQUESTED_EGRESS_PORT_OFFSET: usize = 51;

/// Every port of the capture device.
pub const ALL_PORTS: u16 = 0b11;

/// Which protocol the frame carries.
#[derive(Debug, Clone, Copy, PartialEq, Eq, Structural)]
pub enum Upper {
    /// BCMP directly on IPv6.
    Bcmp,
    /// UDP.
    Udp,
}

impl Upper {
    /// The length of this protocol's header.
    pub open spec fn header_len(self) -> nat {
        if self is Udp {
            8
        } else {
            13
        }
    }

    /// Whether the frame carries a datagram.
    fn is_datagram(self) -> (r: bool)
        ensures
            r == (self is Udp),
    {
        self == Upper::Udp
    }
}

/// Where the frame is addressed, which decides whether it is stamped.
#[derive(Debug, Clone, Copy, PartialEq, Eq, Structural)]
pub enum Destination {
    /// `FF03::1`. Not stamped.
    GlobalMulticast,
    /// `FF02::1`. Stamped per port.
    LinkLocalNeighbor,
    /// `FF02::5`, a link-local multicast that is not the neighbours' address.
    /// Also stamped: only the class of the address matters.
    LinkLocalOther,
    /// A unicast address. Dropped unsent.
    Unicast,
}

impl Destination {
    /// The address. `unicast` is the one that stands for [`Self::Unicast`].
    pub open spec fn address(self, unicast: Address) -> Address {
        match self {
            Destination::GlobalMulticast => GLOBAL_MULTICAST,
            Destination::LinkLocalNeighbor => LINK_LOCAL_MULTICAST,
            Destination::LinkLocalOther => LINK_LOCAL_OTHER,
            Destination::Unicast => unicast,
        }
    }

    /// The address. `unicast` is the one that stands for [`Self::Unicast`].
    #[must_use]
    pub fn addr(self, unicast: Address) -> (r: Address)
        ensures
            r == self.address(unicast),
    {
        match self {
            Destination::GlobalMulticast => GLOBAL_MULTICAST,
            Destination::LinkLocalNeighbor => LINK_LOCAL_MULTICAST,
            Destination::LinkLocalOther => LINK_LOCAL_OTHER,
            Destination::Unicast => unicast,
        }
    }

    /// The destination a byte selects.
    pub open spec fn selected(byte: u8) -> Destination {
        if byte % 4 == 0 {
            Destination::GlobalMulticast
        } else if byte % 4 == 1 {
            Destination::LinkLocalNeighbor
        } else if byte % 4 == 2 {
            Destination::LinkLocalOther
        } else {
            Destination::Unicast
        }
    }

    fn select(byte: u8) -> (r: Destination)
        ensures
            r == Self::selected(byte),
    {
        match byte % 4 {
            0 => Destination::GlobalMulticast,
            1 => Destination::LinkLocalNeighbor,
            2 => Destination::LinkLocalOther,
            _ => Destination::Unicast,
        }
    }
}

/// One frame handed to the link layer for transmission.
#[derive(Debug)]
pub struct L2EgressInput {
    /// Which protocol it carries.
    pub upper: Upper,
    /// Where it is addressed.
    pub destination: Destination,
    /// Egress port an application requests. Anything outside
    /// 1..=[`NUM_PORTS`] means every port.
    pub requested_port: u8,
    /// Whose source address it has.
    pub source_node_id: u64,
    /// UDP source and destination ports, unused for BCMP.
    pub udp_ports: (u16, u16),
    /// Message body, at most [`MAX_BODY`] bytes.
    pub body: Vec<u8>,
}

impl Domain for L2EgressInput {
    open spec fn in_domain(&self) -> bool {
        self.body@.len() <= MAX_BODY
    }

    fn clamp_to_domain(&mut self)
        ensures
            final(self).upper == old(self).upper,
            final(self).destination == old(self).destination,
            final(self).requested_port == old(self).requested_port,
            final(self).source_node_id == old(self).source_node_id,
            final(self).udp_ports == old(self).udp_ports,
            final(self).body@ == old(self).body@.take(
                shorter(old(self).body@.len(), MAX_BODY as nat) as int,
            ),
    {
        self.body.truncate(MAX_BODY);
    }
}

impl L2EgressInput {
    /// Every field but the body is drawn from `s`.
    pub open spec fn drawn_from(&self, s: Seq<u8>) -> bool {
        &&& self.upper == (if padded(s, 3)[0] % 2 == 1 {
            Upper::Bcmp
        } else {
            Upper::Udp
        })
        &&& self.destination == Destination::selected(padded(s, 3)[1])
        &&& self.requested_port == padded(s, 3)[2]
        &&& self.source_node_id == le(padded(rest(s, 3), 8))
        &&& self.udp_ports.0 == le(padded(rest(s, 11), 2))
        &&& self.udp_ports.1 == le(padded(rest(s, 13), 2))
    }

    /// Every field but the body.
    fn scalars(u: &mut Unstructured<'_>) -> (r: Self)
        ensures
            unread(final(u)) == rest(unread(old(u)), 15),
            r.drawn_from(unread(old(u))),
    {
        let ghost s = unread(u);
        let upper = if draw_bool(u) {
            Upper::Bcmp
        } else {
            Upper::Udp
        };
        let destination = Destination::select(draw_u8(u));
        let requested_port = draw_u8(u);
        assert(unread(u) =~= rest(s, 3));
        let source_node_id = draw_u64(u);
        assert(unread(u) =~= rest(s, 11));
        let from = draw_u16(u);
        assert(unread(u) =~= rest(s, 13));
        let to = draw_u16(u);
        assert(unread(u) =~= rest(s, 15));
        L2EgressInput {
            upper,
            destination,
            requested_port,
            source_node_id,
            udp_ports: (from, to),
            body: Vec::new(),
        }
    }

    /// Draw an input, its body by a length and then that many bytes.
    pub fn arbitrary(u: &mut Unstructured<'_>) -> (r: Self)
        ensures
            r.in_domain(),
            r.drawn_from(unread(old(u))),
            r.body@ == sized(rest(unread(old(u)), 15)).take(
                shorter(sized(rest(unread(old(u)), 15)).len(), MAX_BODY as nat) as int,
            ),
            unread(final(u)) == past_sized(rest(unread(old(u)), 15)),
    {
        let mut input = Self::scalars(u);
        input.body = draw_sized(u);
        input.clamp_to_domain();
        input
    }

    /// Draw an input, its body being everything that is left.
    pub fn arbitrary_take_rest(u: Unstructured<'_>) -> (r: Self)
        ensures
            r.in_domain(),
            r.drawn_from(unread(&u)),
            r.body@ == rest(unread(&u), 15).take(
                shorter(rest(unread(&u), 15).len(), MAX_BODY as nat) as int,
            ),
    {
        let mut u = u;
        let mut input = Self::scalars(&mut u);
        input.body = draw_rest(u);
        input.clamp_to_domain();
        input
    }

    /// The input a seed file holds.
    pub fn from_seed(seed: &[u8]) -> (r: Self)
        ensures
            r.in_domain(),
            r.drawn_from(seed@),
            r.body@ == rest(seed@, 15).take(
                shorter(rest(seed@, 15).len(), MAX_BODY as nat) as int,
            ),
    {
        Self::arbitrary_take_rest(source(seed))
    }

    /// The body the frame carries: no more of it than the domain allows.
    pub open spec fn carried_body(&self) -> Seq<u8> {
        self.body@.take(shorter(self.body@.len(), MAX_BODY as nat) as int)
    }

    /// The length of what the frame carries behind its IPv6 header.
    pub open spec fn carried(&self) -> nat {
        self.carried_body().len() + self.upper.header_len()
    }

    /// The length of what the frame carries behind its IPv6 header.
    #[must_use]
    pub fn payload_len(&self) -> (r: usize)
        ensures
            r == self.carried(),
    {
        let len = if self.body.len() <= MAX_BODY {
            self.body.len()
        } else {
            MAX_BODY
        };
        match self.upper {
            Upper::Bcmp => BCMP_HEADER_LEN + len,
            Upper::Udp => UDP_HEADER_LEN + len,
        }
    }

    /// The datagram a UDP frame carries, its checksum still zero.
    pub open spec fn datagram(&self) -> Seq<u8> {
        be_bytes(self.udp_ports.0 as nat, 2) + be_bytes(self.udp_ports.1 as nat, 2) + be_bytes(
            self.carried(),
            2,
        ) + seq![0u8, 0u8] + self.carried_body()
    }
}

/// A frame short of its checksum.
#[derive(Debug)]
pub enum Built {
    /// One that carries BCMP.
    Message(Unsealed),
    /// One that carries UDP.
    Datagram(Vec<u8>),
}

/// The frame an input hands to the link layer once it is in the domain, before
/// its checksum is written. `from` is the link-local address of the source
/// node, `unicast` the address a unicast frame goes to, and `next_header` the
/// number of the upper protocol.
#[must_use]
pub fn build_frame(
    input: &L2EgressInput,
    from: &Address,
    unicast: &Address,
    next_header: u8,
) -> (r: Built)
    ensures
        ({
            let empty = blank(
                from@,
                input.destination.address(*unicast)@,
                next_header,
                input.carried(),
            );
            match r {
                Built::Message(unsealed) => {
                    &&& !(input.upper is Udp)
                    &&& unsealed.frame@ == empty
                    &&& unsealed.message_type is Heartbeat
                    &&& unsealed.body@ == input.carried_body()
                },
                Built::Datagram(frame) => {
                    &&& input.upper is Udp
                    &&& frame@ == empty.take(MIN_FRAME_WITH_ADDRESSES as int) + input.datagram()
                    &&& frame@.len() == MIN_FRAME_WITH_ADDRESSES + UDP_HEADER_LEN
                        + input.carried_body().len()
                },
            }
        }),
{
    broadcast use lemma_be_bytes_len;

    let payload_len = input.payload_len();
    let mut body = copied(input.body.as_slice());
    body.truncate(MAX_BODY);
    assert(body@ =~= input.carried_body());
    let mut frame = blank_frame(
        from,
        &input.destination.addr(*unicast),
        next_header,
        payload_len,
    );
    if input.upper.is_datagram() {
        let ghost empty = frame@;
        let mut header: Vec<u8> = Vec::new();
        push_be(&mut header, input.udp_ports.0 as u64, 2);
        push_be(&mut header, input.udp_ports.1 as u64, 2);
        push_be(&mut header, payload_len as u64, 2);
        put(frame.as_mut_slice(), MIN_FRAME_WITH_ADDRESSES, header.as_slice());
        put(
            frame.as_mut_slice(),
            MIN_FRAME_WITH_ADDRESSES + UDP_HEADER_LEN,
            body.as_slice(),
        );
        assert(frame@ =~= empty.take(MIN_FRAME_WITH_ADDRESSES as int) + input.datagram());
        Built::Datagram(frame)
    } else {
        Built::Message(
            Unsealed {
                frame,
                message_type: MessageType::Heartbeat,
                body,
            },
        )
    }
}

/// Write a datagram's checksum into its frame, in the order the wire has it.
pub fn seal_datagram(frame: &mut Vec<u8>, checksum: u16)
    requires
        old(frame)@.len() >= MIN_FRAME_WITH_ADDRESSES + UDP_HEADER_LEN,
    ensures
        final(frame)@ == overlay(
            old(frame)@,
            UDP_CHECKSUM_OFFSET as int,
            le_bytes(checksum as nat, 2),
        ),
{
    broadcast use lemma_le_bytes_len;

    let mut bytes: Vec<u8> = Vec::new();
    push_le(&mut bytes, checksum as u64, 2);
    assert(bytes@ =~= le_bytes(checksum as nat, 2));
    put(frame.as_mut_slice(), UDP_CHECKSUM_OFFSET, bytes.as_slice());
}

/// Request an egress port, which the link layer reads and clears.
pub fn request_port(frame: &mut Vec<u8>, port: u8)
    requires
        old(frame)@.len() >= MIN_FRAME_WITH_ADDRESSES,
    ensures
        final(frame)@ == old(frame)@.update(REQUESTED_EGRESS_PORT_OFFSET as int, port),
{
    frame.set(REQUESTED_EGRESS_PORT_OFFSET, port);
}

/// The transfers of a frame of this kind whose requested ports are `mask`.
#[must_use]
pub fn port_transmit(kind: TxKind, mask: u16) -> (r: Vec<Transfer>)
    ensures
        r@ == transfers(kind, mask, NUM_PORTS, ALL_PORTS),
{
    transmit(kind, mask, NUM_PORTS, ALL_PORTS)
}

/// Whether both sides put the same bytes on the same ports in the same order.
pub fn check(reference: &[Captured], node: &[Captured]) -> (r: Result<(), FrameDivergence>)
    ensures
        r is Ok <==> captures_view(reference@) == captures_view(node@),
        r matches Err(divergence) ==> diverges(reference@, node@, divergence),
{
    same_frames(reference, node)
}

/// Requesting a port touches nothing but the byte it is requested in, so a
/// frame whose request is cleared again is the frame it was, where that byte
/// was zero to begin with.
pub proof fn law_a_cleared_request_leaves_no_trace(frame: Seq<u8>, port: u8)
    requires
        frame.len() >= MIN_FRAME_WITH_ADDRESSES,
        frame[REQUESTED_EGRESS_PORT_OFFSET as int] == 0,
    ensures
        frame.update(REQUESTED_EGRESS_PORT_OFFSET as int, port).update(
            REQUESTED_EGRESS_PORT_OFFSET as int,
            0,
        ) == frame,
{
    assert(frame.update(REQUESTED_EGRESS_PORT_OFFSET as int, port).update(
        REQUESTED_EGRESS_PORT_OFFSET as int,
        0,
    ) =~= frame);
}

/// Every byte selects a destination, in turn; the multicast ones are addresses
/// of their own, and the unicast one is the address it is given.
pub proof fn law_every_destination_is_selected(destination: Destination, unicast: Address, byte: u8)
    ensures
        destination is GlobalMulticast ==> destination.address(unicast)@ == GLOBAL_MULTICAST@,
        destination is LinkLocalNeighbor ==> destination.address(unicast)@
            == LINK_LOCAL_MULTICAST@,
        destination is LinkLocalOther ==> destination.address(unicast)@ == LINK_LOCAL_OTHER@,
        destination is Unicast ==> destination.address(unicast)@ == unicast@,
        Destination::selected(0) is GlobalMulticast && Destination::selected(1)
            is LinkLocalNeighbor && Destination::selected(2) is LinkLocalOther
            && Destination::selected(3) is Unicast,
        byte <= 251 ==> Destination::selected((byte + 4) as u8) == Destination::selected(byte),
{
}

/// A datagram is its two ports and its length, each most significant byte
/// first, an empty checksum, and its body; the length counts all of it.
pub proof fn law_a_datagram_says_how_long_it_is(input: L2EgressInput)
    requires
        input.upper is Udp,
    ensures
        ({
            let datagram = input.datagram();
            &&& datagram.len() == 8 + input.carried_body().len()
            &&& datagram.len() == input.carried()
            &&& datagram[0] == input.udp_ports.0 / 256 && datagram[1] == input.udp_ports.0 % 256
            &&& datagram[2] == input.udp_ports.1 / 256 && datagram[3] == input.udp_ports.1 % 256
            &&& datagram[4] * 256 + datagram[5] == datagram.len()
            &&& datagram[6] == 0 && datagram[7] == 0
            &&& datagram.skip(8) =~= input.carried_body()
        }),
{
    broadcast use lemma_be_bytes_len;

    reveal_with_fuel(be_bytes, 3);
}

/// A body is cut only if it is too long, and then to its front; what carries it
/// adds its own header, which is longer for a message than for a datagram.
pub proof fn law_a_body_is_cut_only_if_it_must_be(input: L2EgressInput)
    ensures
        input.body@.len() <= 256 ==> input.carried_body() =~= input.body@,
        input.body@.len() > 256 ==> input.carried_body() =~= input.body@.take(256),
        input.upper is Udp ==> input.carried() == input.carried_body().len() + 8,
        input.upper !is Udp ==> input.carried() == input.carried_body().len() + 13,
{
}

/// An input is drawn field by field from the bytes that were written for it.
pub proof fn law_a_written_input_is_drawn_back(
    input: L2EgressInput,
    upper: u8,
    destination: u8,
    port: u8,
    node_id: u64,
    from: u16,
    to: u16,
    more: Seq<u8>,
)
    requires
        input.drawn_from(
            seq![upper, destination, port] + (le_bytes(node_id as nat, 8) + (le_bytes(
                from as nat,
                2,
            ) + (le_bytes(to as nat, 2) + more))),
        ),
    ensures
        input.upper is Udp <==> upper % 2 == 0,
        input.destination == Destination::selected(destination),
        input.requested_port == port,
        input.source_node_id == node_id,
        input.udp_ports.0 == from,
        input.udp_ports.1 == to,
{
    broadcast use lemma_le_bytes_len;

    let front = seq![upper, destination, port];
    let s3 = le_bytes(to as nat, 2) + more;
    let s2 = le_bytes(from as nat, 2) + s3;
    let s1 = le_bytes(node_id as nat, 8) + s2;
    let s = front + s1;
    crate::bytes::law_le_bytes_fit(node_id as nat);
    crate::bytes::law_le_bytes_fit(from as nat);
    crate::bytes::law_le_bytes_fit(to as nat);
    crate::fuzz::law_what_is_written_first_is_drawn_first(front, s1, 0);
    crate::fuzz::law_what_is_written_first_is_drawn_first(le_bytes(node_id as nat, 8), s2, 0);
    crate::fuzz::law_what_is_written_first_is_drawn_first(le_bytes(from as nat, 2), s3, 0);
    crate::fuzz::law_what_is_written_first_is_drawn_first(le_bytes(to as nat, 2), more, 0);
    assert(padded(s, 3) =~= front);
    assert(rest(s, 11) =~= rest(rest(s, 3), 8));
    assert(rest(s, 13) =~= rest(rest(s, 11), 2));
}

/// What an input may be: a body of at most 256 bytes.
pub proof fn law_the_domain_is_what_the_reference_takes(input: L2EgressInput)
    ensures
        input.in_domain() <==> {
            input.body@.len() <= 256
        },
{
}

} // verus!
