//! Comparing forwarding: whether a node puts the same bytes on the same other
//! ports as the reference does.
//!
//! Two paths carry a frame from one port to another. A relay copies the
//! received frame; a re-flood carries the received message in a fresh frame
//! per port. Both are compared, and so is the decision to re-flood.
//!
//! Heartbeats are left out: the reference's neighbour table outlives every
//! input, so one input's heartbeat would change every later answer.
use vstd::prelude::*;

use crate::bytes::{le, le_bytes, lemma_le_bytes_len, overlay, push_le, put, shorter};
use crate::diff::compare::{captures_view, diverges, same_frames, Captured, FrameDivergence};
use crate::diff::domain::{fold_port, folded_port, Domain};
use crate::diff::frames::{blank, blank_frame, Unsealed};
use crate::diff::stack::{NODE_ID, NUM_PORTS};
use crate::frame::{Address, BCMP_HEADER_LEN, GLOBAL_MULTICAST, LINK_LOCAL_MULTICAST};
use crate::fuzz::{
    draw_rest, draw_sized, draw_u8, padded, past_sized, rest, sized, source, unread,
};
use crate::message::MessageType;
use arbitrary::Unstructured;

verus! {

/// Node id the injected frame appears to come from. Anything but the
/// reference's.
pub const PEER_NODE_ID: u64 = 0x0000_0000_55AA_0011;

/// A third node, so that a system-time message can be for somebody who is
/// neither end of the link and so gets forwarded.
pub const THIRD_NODE_ID: u64 = 0x0000_0000_0BAD_F00D;

/// Largest body the comparison will build.
pub const MAX_BODY: usize = 256;

/// Which message the injected frame carries. The type decides whether the
/// reference answers, which makes the comparison of relays a comparison of
/// transmit order too.
#[derive(Debug, Clone, Copy, PartialEq, Eq, Structural)]
pub enum Message {
    /// A type nothing registers, so nothing answers it.
    Unregistered,
    /// A device-info request for this node, which it answers.
    DeviceInfoForUs,
    /// A device-info request for somebody else, which it ignores.
    DeviceInfoForAnother,
    /// A neighbour-table request for this node, which it answers.
    NeighborTableForUs,
    /// A system-time request for this node, which goes unanswered because
    /// nothing sets the clock.
    SystemTime,
    /// A system-time request for a third node, which is re-flooded.
    SystemTimeForAnother,
}

impl Message {
    /// The type this is sent as.
    pub open spec fn sent_as(self) -> MessageType {
        match self {
            Message::Unregistered => MessageType::Other(0xFFFE),
            Message::DeviceInfoForUs | Message::DeviceInfoForAnother =>
                MessageType::DeviceInfoRequest,
            Message::NeighborTableForUs => MessageType::NeighborTableRequest,
            Message::SystemTime | Message::SystemTimeForAnother => MessageType::SystemTimeRequest,
        }
    }

    /// What the reference reads out of the front of the body, if it reads
    /// anything: the target node id, and for a system-time message the
    /// sender's id behind it.
    pub open spec fn prefix(self) -> Seq<u8> {
        match self {
            Message::Unregistered => Seq::empty(),
            Message::DeviceInfoForUs | Message::NeighborTableForUs => le_bytes(NODE_ID as nat, 8),
            Message::DeviceInfoForAnother => le_bytes(PEER_NODE_ID as nat, 8),
            Message::SystemTime => le_bytes(NODE_ID as nat, 8) + le_bytes(PEER_NODE_ID as nat, 8),
            Message::SystemTimeForAnother => le_bytes(THIRD_NODE_ID as nat, 8) + le_bytes(
                PEER_NODE_ID as nat,
                8,
            ),
        }
    }

    /// The type this is sent as.
    #[must_use]
    pub fn message_type(self) -> (r: MessageType)
        ensures
            r == self.sent_as(),
    {
        match self {
            Message::Unregistered => MessageType::Other(0xFFFE),
            Message::DeviceInfoForUs | Message::DeviceInfoForAnother =>
                MessageType::DeviceInfoRequest,
            Message::NeighborTableForUs => MessageType::NeighborTableRequest,
            Message::SystemTime | Message::SystemTimeForAnother => MessageType::SystemTimeRequest,
        }
    }

    /// Whether the reference re-floods this message.
    #[must_use]
    pub fn is_forwarded(self) -> (r: bool)
        ensures
            r == (self is SystemTimeForAnother),
    {
        match self {
            Message::SystemTimeForAnother => true,
            _ => false,
        }
    }

    /// What the reference reads out of the front of the body, if it reads
    /// anything. A shorter body would have it read past the end.
    #[must_use]
    pub fn body_prefix(self) -> (r: Option<Vec<u8>>)
        ensures
            r is None <==> self is Unregistered,
            r matches Some(prefix) ==> prefix@ == self.prefix() && 8 <= prefix@.len() <= 16,
    {
        broadcast use lemma_le_bytes_len;

        let mut prefix: Vec<u8> = Vec::new();
        match self {
            Message::Unregistered => return None,
            Message::DeviceInfoForUs | Message::NeighborTableForUs => {
                push_le(&mut prefix, NODE_ID, 8);
            },
            Message::DeviceInfoForAnother => {
                push_le(&mut prefix, PEER_NODE_ID, 8);
            },
            Message::SystemTime => {
                push_le(&mut prefix, NODE_ID, 8);
                push_le(&mut prefix, PEER_NODE_ID, 8);
            },
            Message::SystemTimeForAnother => {
                push_le(&mut prefix, THIRD_NODE_ID, 8);
                push_le(&mut prefix, PEER_NODE_ID, 8);
            },
        }
        assert(prefix@ =~= self.prefix());
        Some(prefix)
    }

    /// The message a byte selects.
    pub open spec fn selected(byte: u8) -> Message {
        if byte % 6 == 0 {
            Message::Unregistered
        } else if byte % 6 == 1 {
            Message::DeviceInfoForUs
        } else if byte % 6 == 2 {
            Message::DeviceInfoForAnother
        } else if byte % 6 == 3 {
            Message::NeighborTableForUs
        } else if byte % 6 == 4 {
            Message::SystemTime
        } else {
            Message::SystemTimeForAnother
        }
    }

    /// The message a byte selects.
    fn select(byte: u8) -> (r: Message)
        ensures
            r == Self::selected(byte),
    {
        match byte % 6 {
            0 => Message::Unregistered,
            1 => Message::DeviceInfoForUs,
            2 => Message::DeviceInfoForAnother,
            3 => Message::NeighborTableForUs,
            4 => Message::SystemTime,
            _ => Message::SystemTimeForAnother,
        }
    }
}

/// `FF02::5`, a link-local multicast address that is not the neighbours'.
pub const LINK_LOCAL_OTHER: Address = [0xFF, 0x02, 0, 0, 0, 0, 0, 0, 0, 0, 0, 0, 0, 0, 0, 5];

/// Where the injected frame is addressed, which is what routing decides on.
#[derive(Debug, Clone, Copy, PartialEq, Eq, Structural)]
pub enum Destination {
    /// `FF03::1`. Flooded to every port but the ingress one.
    GlobalMulticast,
    /// `FF02::1`, the neighbours' address. Consumed, never relayed.
    LinkLocalNeighbor,
    /// `FF02::5`. Submitted locally and relayed nowhere.
    LinkLocalOther,
}

impl Destination {
    /// The address.
    pub open spec fn address(self) -> Address {
        match self {
            Destination::GlobalMulticast => GLOBAL_MULTICAST,
            Destination::LinkLocalNeighbor => LINK_LOCAL_MULTICAST,
            Destination::LinkLocalOther => LINK_LOCAL_OTHER,
        }
    }

    /// The address.
    #[must_use]
    pub fn addr(self) -> (r: Address)
        ensures
            r == self.address(),
    {
        match self {
            Destination::GlobalMulticast => GLOBAL_MULTICAST,
            Destination::LinkLocalNeighbor => LINK_LOCAL_MULTICAST,
            Destination::LinkLocalOther => LINK_LOCAL_OTHER,
        }
    }

    /// The destination a byte selects.
    pub open spec fn selected(byte: u8) -> Destination {
        if byte % 3 == 0 {
            Destination::GlobalMulticast
        } else if byte % 3 == 1 {
            Destination::LinkLocalNeighbor
        } else {
            Destination::LinkLocalOther
        }
    }

    /// The destination a byte selects.
    fn select(byte: u8) -> (r: Destination)
        ensures
            r == Self::selected(byte),
    {
        match byte % 3 {
            0 => Destination::GlobalMulticast,
            1 => Destination::LinkLocalNeighbor,
            _ => Destination::LinkLocalOther,
        }
    }
}

/// One frame delivered to both sides.
#[derive(Debug)]
pub struct ForwardInput {
    /// Which message it carries.
    pub message: Message,
    /// Where it is addressed.
    pub destination: Destination,
    /// Port it arrives on, 1..=[`NUM_PORTS`].
    pub ingress_port: u8,
    /// Egress-port nibble the previous hop stamped into the source address.
    pub sender_egress_nibble: u8,
    /// The two source-address bytes a receiver zeroes before it verifies the
    /// checksum.
    pub legacy_ports: [u8; 2],
    /// Message body, at most [`MAX_BODY`] bytes.
    pub body: Vec<u8>,
}

impl ForwardInput {
    /// Whether the message is ever dispatched.
    ///
    /// The receiver clears the legacy port bytes and then verifies the
    /// checksum, which was computed with them in place, so a frame carrying
    /// them is normally rejected before its type is looked at. The two bytes
    /// are one aligned word of a one's-complement sum: removing `0x0000`
    /// changes nothing, and neither does removing `0xFFFF`, which is negative
    /// zero.
    #[must_use]
    pub fn reaches_bcmp(&self) -> (r: bool)
        ensures
            r <==> self.legacy_ports@ == seq![0u8, 0u8] || self.legacy_ports@ == seq![
                0xFFu8,
                0xFFu8,
            ],
    {
        let first = self.legacy_ports[0];
        let second = self.legacy_ports[1];
        proof {
            if first == 0 && second == 0 {
                assert(self.legacy_ports@ =~= seq![0u8, 0u8]);
            }
            if first == 0xFF && second == 0xFF {
                assert(self.legacy_ports@ =~= seq![0xFFu8, 0xFFu8]);
            }
        }
        (first == 0 && second == 0) || (first == 0xFF && second == 0xFF)
    }

    /// Everything but the body, the port and the nibble is the same.
    pub open spec fn same_but_for_domain(&self, other: &Self) -> bool {
        &&& self.message == other.message
        &&& self.destination == other.destination
        &&& self.legacy_ports == other.legacy_ports
    }

    /// The body a message has once it is cut to length and carries what the
    /// reference reads out of it.
    pub open spec fn fitted(message: Message, body: Seq<u8>) -> Seq<u8> {
        let cut = body.take(shorter(body.len(), MAX_BODY as nat) as int);
        let grown = if cut.len() < message.prefix().len() {
            cut + Seq::new((message.prefix().len() - cut.len()) as nat, |i: int| 0u8)
        } else {
            cut
        };
        overlay(grown, 0, message.prefix())
    }
}

impl Domain for ForwardInput {
    open spec fn in_domain(&self) -> bool {
        &&& 1 <= self.ingress_port <= NUM_PORTS
        &&& self.sender_egress_nibble <= 0x0F
        &&& self.body@.len() <= MAX_BODY
        &&& self.message.prefix().len() <= self.body@.len()
        &&& self.body@.subrange(0, self.message.prefix().len() as int) == self.message.prefix()
    }

    fn clamp_to_domain(&mut self)
        ensures
            final(self).same_but_for_domain(old(self)),
            final(self).ingress_port == folded_port(old(self).ingress_port, NUM_PORTS),
            final(self).sender_egress_nibble == old(self).sender_egress_nibble & 0x0F,
            final(self).body@ == ForwardInput::fitted(old(self).message, old(self).body@),
    {
        self.ingress_port = fold_port(self.ingress_port, NUM_PORTS);
        let nibble = self.sender_egress_nibble;
        assert(nibble & 0x0F <= 0x0F) by (bit_vector);
        self.sender_egress_nibble = nibble & 0x0F;
        self.body.truncate(MAX_BODY);
        let ghost cut = self.body@;
        match self.message.body_prefix() {
            Some(prefix) => {
                while self.body.len() < prefix.len()
                    invariant
                        self.same_but_for_domain(old(self)),
                        self.ingress_port == folded_port(old(self).ingress_port, NUM_PORTS),
                        1 <= self.ingress_port <= NUM_PORTS,
                        self.sender_egress_nibble == old(self).sender_egress_nibble & 0x0F,
                        self.sender_egress_nibble <= 0x0F,
                        prefix@ == self.message.prefix(),
                        8 <= prefix@.len() <= 16,
                        cut.len() <= self.body@.len() <= MAX_BODY,
                        cut.len() >= prefix@.len() ==> self.body@.len() == cut.len(),
                        cut.len() < prefix@.len() ==> self.body@.len() <= prefix@.len(),
                        self.body@ =~= cut + Seq::new(
                            (self.body@.len() - cut.len()) as nat,
                            |i: int| 0u8,
                        ),
                    decreases prefix@.len() - self.body@.len(),
                {
                    self.body.push(0);
                }
                put(self.body.as_mut_slice(), 0, prefix.as_slice());
                assert(self.body@ =~= ForwardInput::fitted(old(self).message, old(self).body@));
            },
            None => {
                assert(self.body@ =~= ForwardInput::fitted(old(self).message, old(self).body@));
            },
        }
        assert(self.body@.subrange(0, self.message.prefix().len() as int)
            =~= self.message.prefix());
    }
}

impl ForwardInput {
    /// Every field but the body is drawn from `s`.
    pub open spec fn drawn_from(&self, s: Seq<u8>) -> bool {
        &&& self.message == Message::selected(padded(s, 6)[0])
        &&& self.destination == Destination::selected(padded(s, 6)[1])
        &&& self.ingress_port == folded_port(padded(s, 6)[2], NUM_PORTS)
        &&& self.sender_egress_nibble == padded(s, 6)[3] & 0x0F
        &&& self.legacy_ports@ == seq![padded(s, 6)[4], padded(s, 6)[5]]
    }

    /// Every field but the body, before they are folded into the domain.
    fn scalars(u: &mut Unstructured<'_>) -> (r: Self)
        ensures
            unread(final(u)) == rest(unread(old(u)), 6),
            r.message == Message::selected(padded(unread(old(u)), 6)[0]),
            r.destination == Destination::selected(padded(unread(old(u)), 6)[1]),
            r.ingress_port == padded(unread(old(u)), 6)[2],
            r.sender_egress_nibble == padded(unread(old(u)), 6)[3],
            r.legacy_ports@ == seq![padded(unread(old(u)), 6)[4], padded(unread(old(u)), 6)[5]],
    {
        let message = Message::select(draw_u8(u));
        let destination = Destination::select(draw_u8(u));
        let ingress_port = draw_u8(u);
        let sender_egress_nibble = draw_u8(u);
        let first = draw_u8(u);
        let second = draw_u8(u);
        assert(unread(u) =~= rest(unread(old(u)), 6));
        ForwardInput {
            message,
            destination,
            ingress_port,
            sender_egress_nibble,
            legacy_ports: [first, second],
            body: Vec::new(),
        }
    }

    /// Draw an input, its body by a length and then that many bytes.
    pub fn arbitrary(u: &mut Unstructured<'_>) -> (r: Self)
        ensures
            r.in_domain(),
            r.drawn_from(unread(old(u))),
            r.body@ == Self::fitted(r.message, sized(rest(unread(old(u)), 6))),
            unread(final(u)) == past_sized(rest(unread(old(u)), 6)),
    {
        let mut input = Self::scalars(u);
        input.body = draw_sized(u);
        input.clamp_to_domain();
        input
    }

    /// Draw an input, its body being everything that is left.
    pub fn arbitrary_take_rest(u: Unstructured<'_>) -> (r: Self)
        ensures
            r.in_domain(),
            r.drawn_from(unread(&u)),
            r.body@ == Self::fitted(r.message, rest(unread(&u), 6)),
    {
        let mut u = u;
        let mut input = Self::scalars(&mut u);
        input.body = draw_rest(u);
        input.clamp_to_domain();
        input
    }

    /// The input a seed file holds.
    pub fn from_seed(seed: &[u8]) -> (r: Self)
        ensures
            r.in_domain(),
            r.drawn_from(seed@),
            r.body@ == Self::fitted(r.message, rest(seed@, 6)),
    {
        Self::arbitrary_take_rest(source(seed))
    }

    /// The source address as the wire carries it: the peer's, with the previous
    /// hop's egress nibble and the legacy port bytes in place.
    pub open spec fn stamped_source(&self, peer: Seq<u8>) -> Seq<u8> {
        peer.update(2, self.sender_egress_nibble & 0x0F).update(4, self.legacy_ports@[0]).update(
            5,
            self.legacy_ports@[1],
        )
    }
}

/// The frame an input delivers once it is in the domain, before its header and
/// checksum are written. `peer` is the link-local address of [`PEER_NODE_ID`].
#[must_use]
pub fn build_frame(input: &ForwardInput, peer: &Address, next_header: u8) -> (r: Unsealed)
    ensures
        ({
            let body = ForwardInput::fitted(input.message, input.body@);
            &&& r.frame@ == blank(
                input.stamped_source(peer@),
                input.destination.address()@,
                next_header,
                BCMP_HEADER_LEN as nat + body.len(),
            )
            &&& r.message_type == input.message.sent_as()
            &&& r.body@ == body
        }),
{
    let mut input = ForwardInput {
        message: input.message,
        destination: input.destination,
        ingress_port: input.ingress_port,
        sender_egress_nibble: input.sender_egress_nibble,
        legacy_ports: input.legacy_ports,
        body: crate::bytes::copied(input.body.as_slice()),
    };
    let ghost given = input;
    input.clamp_to_domain();
    let mut from: Address = *peer;
    from[2] = input.sender_egress_nibble;
    from[4] = input.legacy_ports[0];
    from[5] = input.legacy_ports[1];
    assert(from@ =~= given.stamped_source(peer@));
    let frame = blank_frame(
        &from,
        &input.destination.addr(),
        next_header,
        BCMP_HEADER_LEN + input.body.len(),
    );
    Unsealed {
        frame,
        message_type: input.message.message_type(),
        body: input.body,
    }
}

/// How forwarding differs.
#[derive(Debug, Clone, Copy, PartialEq, Eq, Structural)]
pub enum ForwardDivergence {
    /// The two sides disagree on whether the message is re-flooded.
    Decision {
        /// Whether the node re-floods it.
        node: bool,
    },
    /// The reference did not put one frame on every other port.
    Copies {
        /// How many it sent.
        reference: usize,
    },
    /// The frames differ.
    Frames(FrameDivergence),
}

/// Whether a message is to be re-flooded: it is for a third node, and nothing
/// in its frame keeps it from being dispatched.
pub open spec fn re_flooded(input: ForwardInput) -> bool {
    input.message is SystemTimeForAnother && (input.legacy_ports@ == seq![0u8, 0u8]
        || input.legacy_ports@ == seq![0xFFu8, 0xFFu8])
}

/// The divergence over what was relayed, answered and re-flooded: in the
/// decision before anything else, then in the frames.
pub open spec fn relays_part(
    input: ForwardInput,
    reference: Seq<Captured>,
    node: Seq<Captured>,
    forwarded: bool,
    divergence: ForwardDivergence,
) -> bool {
    match divergence {
        ForwardDivergence::Decision { node: decided } => decided == forwarded && forwarded
            != re_flooded(input),
        ForwardDivergence::Copies { .. } => false,
        ForwardDivergence::Frames(frames) => forwarded == re_flooded(input) && diverges(
            reference,
            node,
            frames,
        ),
    }
}

/// The divergence over what was re-flooded on demand: in the number of copies
/// before anything else, then in the frames.
pub open spec fn forwards_part(
    reference: Seq<Captured>,
    node: Seq<Captured>,
    divergence: ForwardDivergence,
) -> bool {
    match divergence {
        ForwardDivergence::Decision { .. } => false,
        ForwardDivergence::Copies { reference: copies } => copies == reference.len() && copies
            != NUM_PORTS - 1,
        ForwardDivergence::Frames(frames) => reference.len() == NUM_PORTS - 1 && diverges(
            reference,
            node,
            frames,
        ),
    }
}

/// Compare what the two sides relayed, answered and re-flooded: the same
/// frames on the same ports in the same order, and a re-flood exactly where the
/// message is for a third node and is dispatched at all.
pub fn check_relay(
    input: &ForwardInput,
    reference: &[Captured],
    node: &[Captured],
    forwarded: bool,
) -> (r: Result<(), ForwardDivergence>)
    ensures
        r is Ok <==> forwarded == re_flooded(*input) && captures_view(reference@) == captures_view(
            node@,
        ),
        r matches Err(divergence) ==> relays_part(
            *input,
            reference@,
            node@,
            forwarded,
            divergence,
        ),
{
    if forwarded != (input.message.is_forwarded() && input.reaches_bcmp()) {
        return Err(ForwardDivergence::Decision { node: forwarded });
    }
    match same_frames(reference, node) {
        Ok(()) => Ok(()),
        Err(divergence) => Err(ForwardDivergence::Frames(divergence)),
    }
}

/// Compare what the two sides re-flooded when told to: one frame on every port
/// but the ingress one, and the same ones.
pub fn check_ll_forward(
    reference: &[Captured],
    node: &[Captured],
) -> (r: Result<(), ForwardDivergence>)
    ensures
        r is Ok <==> reference@.len() == NUM_PORTS - 1 && captures_view(reference@)
            == captures_view(node@),
        r matches Err(divergence) ==> forwards_part(reference@, node@, divergence),
{
    if reference.len() != 1 {
        return Err(ForwardDivergence::Copies { reference: reference.len() });
    }
    match same_frames(reference, node) {
        Ok(()) => Ok(()),
        Err(divergence) => Err(ForwardDivergence::Frames(divergence)),
    }
}

/// What both sides did with one input.
#[derive(Debug)]
pub struct ForwardSeen {
    /// What the reference relayed, answered and re-flooded.
    pub reference: Vec<Captured>,
    /// What the node did.
    pub node: Vec<Captured>,
    /// Whether the node re-flooded.
    pub forwarded: bool,
    /// What the reference re-flooded when told to.
    pub reference_forward: Vec<Captured>,
    /// What the node did.
    pub node_forward: Vec<Captured>,
}

/// Compare both halves.
pub fn check(input: &ForwardInput, seen: &ForwardSeen) -> (r: Result<(), ForwardDivergence>)
    ensures
        r is Ok <==> {
            &&& seen.forwarded == re_flooded(*input)
            &&& captures_view(seen.reference@) == captures_view(seen.node@)
            &&& seen.reference_forward@.len() == NUM_PORTS - 1
            &&& captures_view(seen.reference_forward@) == captures_view(seen.node_forward@)
        },
        r matches Err(divergence) ==> if seen.forwarded == re_flooded(*input) && captures_view(
            seen.reference@,
        ) == captures_view(seen.node@) {
            forwards_part(seen.reference_forward@, seen.node_forward@, divergence)
        } else {
            relays_part(*input, seen.reference@, seen.node@, seen.forwarded, divergence)
        },
{
    match check_relay(
        input,
        seen.reference.as_slice(),
        seen.node.as_slice(),
        seen.forwarded,
    ) {
        Ok(()) => check_ll_forward(
            seen.reference_forward.as_slice(),
            seen.node_forward.as_slice(),
        ),
        Err(divergence) => Err(divergence),
    }
}

/// Each message starts with whom it is for, as its type has it: a request with
/// the node it names, a time message with that and the peer that sent it, one
/// of an unregistered type with nothing.
pub proof fn law_each_message_starts_with_whom_it_is_for(message: Message)
    ensures
        match message {
            Message::Unregistered => message.prefix().len() == 0 && message.sent_as()
                == MessageType::Other(0xFFFE),
            Message::DeviceInfoForUs => message.sent_as() is DeviceInfoRequest && le(
                message.prefix(),
            ) == NODE_ID && message.prefix().len() == 8,
            Message::DeviceInfoForAnother => message.sent_as() is DeviceInfoRequest && le(
                message.prefix(),
            ) == PEER_NODE_ID && message.prefix().len() == 8,
            Message::NeighborTableForUs => message.sent_as() is NeighborTableRequest && le(
                message.prefix(),
            ) == NODE_ID && message.prefix().len() == 8,
            Message::SystemTime => message.sent_as() is SystemTimeRequest && le(
                message.prefix().take(8),
            ) == NODE_ID && le(message.prefix().skip(8)) == PEER_NODE_ID
                && message.prefix().len() == 16,
            Message::SystemTimeForAnother => message.sent_as() is SystemTimeRequest && le(
                message.prefix().take(8),
            ) == THIRD_NODE_ID && le(message.prefix().skip(8)) == PEER_NODE_ID
                && message.prefix().len() == 16,
        },
{
    broadcast use lemma_le_bytes_len;

    crate::bytes::law_le_bytes_fit(NODE_ID as nat);
    crate::bytes::law_le_bytes_fit(PEER_NODE_ID as nat);
    crate::bytes::law_le_bytes_fit(THIRD_NODE_ID as nat);
    if message is SystemTime || message is SystemTimeForAnother {
        let first = if message is SystemTime {
            le_bytes(NODE_ID as nat, 8)
        } else {
            le_bytes(THIRD_NODE_ID as nat, 8)
        };
        assert(message.prefix().take(8) =~= first);
        assert(message.prefix().skip(8) =~= le_bytes(PEER_NODE_ID as nat, 8));
    }
}

/// Every byte selects a message and a destination, in turn, and every
/// destination is an address of its own.
pub proof fn law_every_message_and_destination_is_selected(a: Destination, b: Destination, byte: u8)
    ensures
        a.address()@ == b.address()@ ==> a == b,
        a is GlobalMulticast ==> a.address()@ == GLOBAL_MULTICAST@,
        a is LinkLocalNeighbor ==> a.address()@ == LINK_LOCAL_MULTICAST@,
        a is LinkLocalOther ==> a.address()@ == LINK_LOCAL_OTHER@,
        Destination::selected(0) is GlobalMulticast && Destination::selected(1)
            is LinkLocalNeighbor && Destination::selected(2) is LinkLocalOther,
        Message::selected(0) is Unregistered && Message::selected(1) is DeviceInfoForUs
            && Message::selected(2) is DeviceInfoForAnother && Message::selected(3)
            is NeighborTableForUs && Message::selected(4) is SystemTime && Message::selected(5)
            is SystemTimeForAnother,
        byte <= 249 ==> Message::selected((byte + 6) as u8) == Message::selected(byte)
            && Destination::selected((byte + 6) as u8) == Destination::selected(byte),
{
    assert(GLOBAL_MULTICAST@[1] == 0x03 && LINK_LOCAL_MULTICAST@[1] == 0x02);
    assert(LINK_LOCAL_OTHER@[1] == 0x02 && LINK_LOCAL_OTHER@[15] == 5);
    assert(LINK_LOCAL_MULTICAST@[15] == 1);
}

/// A fitted body starts with whom its message is for, is no shorter than that
/// and no longer than allowed, and is otherwise the body it was.
pub proof fn law_a_fitted_body_starts_with_its_prefix(message: Message, body: Seq<u8>, i: int)
    ensures
        ({
            let fitted = ForwardInput::fitted(message, body);
            let n = message.prefix().len();
            &&& n <= fitted.len() <= 256
            &&& fitted.take(n as int) =~= message.prefix()
            &&& n <= i < body.len() && i < 256 ==> i < fitted.len() && fitted[i] == body[i]
            &&& n <= body.len() <= 256 ==> fitted.len() == body.len()
            &&& body.len() < n ==> fitted =~= message.prefix()
            &&& ForwardInput::fitted(message, fitted) =~= fitted
        }),
{
    law_each_message_starts_with_whom_it_is_for(message);
}

/// The previous hop shows in the source address it leaves: its egress port in
/// the low nibble of one byte, the legacy ports in two more, and the rest of
/// the address is the peer's.
pub proof fn law_the_previous_hop_shows_in_the_source(input: ForwardInput, peer: Seq<u8>, i: int)
    requires
        peer.len() == 16,
        0 <= i < 16,
    ensures
        ({
            let source = input.stamped_source(peer);
            &&& source.len() == 16
            &&& source[2] == input.sender_egress_nibble % 16
            &&& source[4] == input.legacy_ports@[0]
            &&& source[5] == input.legacy_ports@[1]
            &&& i != 2 && i != 4 && i != 5 ==> source[i] == peer[i]
        }),
{
    let nibble = input.sender_egress_nibble;
    assert(nibble & 0x0F == nibble % 16) by (bit_vector);
}

/// An input is drawn field by field from the bytes that were written for it,
/// and folding it into the domain keeps its message, its destination and its
/// legacy ports.
pub proof fn law_a_written_input_is_drawn_back(
    input: ForwardInput,
    other: ForwardInput,
    message: u8,
    destination: u8,
    port: u8,
    nibble: u8,
    first: u8,
    second: u8,
    more: Seq<u8>,
)
    requires
        1 <= port <= 2,
        nibble <= 0x0F,
        input.drawn_from(seq![message, destination, port, nibble, first, second] + more),
    ensures
        input.message == Message::selected(message),
        input.destination == Destination::selected(destination),
        input.ingress_port == port,
        input.sender_egress_nibble == nibble,
        input.legacy_ports@ =~= seq![first, second],
        input.same_but_for_domain(&other) <==> input.message == other.message
            && input.destination == other.destination && input.legacy_ports == other.legacy_ports,
{
    let front = seq![message, destination, port, nibble, first, second];
    assert(padded(front + more, 6) =~= front);
    assert(nibble & 0x0F == nibble) by (bit_vector)
        requires
            nibble <= 0x0F,
    ;
    crate::diff::domain::law_a_port_is_folded_into_its_range(port, 2);
}

/// Only a time message for another node is re-flooded, and only if its legacy
/// ports do not spoil its checksum: both bytes zero, or both all ones.
pub proof fn law_only_time_messages_for_another_node_are_re_flooded(input: ForwardInput)
    ensures
        re_flooded(input) ==> input.message is SystemTimeForAnother,
        input.message is SystemTimeForAnother ==> (re_flooded(input) <==> input.legacy_ports@[0]
            == input.legacy_ports@[1] && (input.legacy_ports@[0] == 0 || input.legacy_ports@[0]
            == 0xFF)),
{
    assert(input.legacy_ports@.len() == 2);
    if input.legacy_ports@[0] == 0 && input.legacy_ports@[1] == 0 {
        assert(input.legacy_ports@ =~= seq![0u8, 0u8]);
    }
    if input.legacy_ports@[0] == 0xFF && input.legacy_ports@[1] == 0xFF {
        assert(input.legacy_ports@ =~= seq![0xFFu8, 0xFFu8]);
    }
}

/// What is faulted is really wrong: a decision that is not the owed one, a
/// number of copies other than one per other port, or frames that differ.
pub proof fn law_a_forward_is_faulted_for_what_is_wrong(
    input: ForwardInput,
    reference: Seq<Captured>,
    node: Seq<Captured>,
    forwarded: bool,
    divergence: ForwardDivergence,
)
    ensures
        relays_part(input, reference, node, forwarded, divergence) ==> match divergence {
            ForwardDivergence::Decision { node: decided } => decided == forwarded && forwarded
                != re_flooded(input),
            ForwardDivergence::Frames(_) => forwarded == re_flooded(input) && captures_view(
                reference,
            ) != captures_view(node),
            ForwardDivergence::Copies { .. } => false,
        },
        forwards_part(reference, node, divergence) ==> match divergence {
            ForwardDivergence::Decision { .. } => false,
            ForwardDivergence::Copies { reference: copies } => copies == reference.len() && copies
                != 1,
            ForwardDivergence::Frames(_) => reference.len() == 1 && captures_view(reference)
                != captures_view(node),
        },
{
    match divergence {
        ForwardDivergence::Frames(frames) => {
            if diverges(reference, node, frames) {
                crate::diff::compare::law_a_reported_divergence_is_real(reference, node, frames);
            }
        },
        _ => {},
    }
}

/// What an input may be: arriving on one of two ports, with four bits of
/// egress, and a body of at most 256 bytes that starts as its message does.
pub proof fn law_the_domain_is_what_the_reference_takes(input: ForwardInput)
    ensures
        input.in_domain() <==> {
            &&& input.ingress_port == 1 || input.ingress_port == 2
            &&& input.sender_egress_nibble < 16
            &&& input.body@.len() <= 256
            &&& input.message.prefix().is_prefix_of(input.body@)
        },
{
}

} // verus!
