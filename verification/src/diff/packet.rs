//! Comparing packet codecs: the bytes a message is serialised to, and what a
//! received frame is taken for.
use vstd::prelude::*;

use crate::bytes::{
    be_bytes, first_difference, law_le_bytes_fit, le, le_bytes, lemma_be_bytes_len,
    lemma_le_bytes_len, overlay, push_be, put, shorter,
};
use crate::diff::domain::Domain;
use crate::diff::frames::{blank, blank_frame};
use crate::frame::{
    Address, BCMP_HEADER_LEN, IPV6_INGRESS_EGRESS_PORTS_OFFSET, LEGACY_PORT_CLEAR_OFFSET,
    MIN_FRAME_WITH_ADDRESSES,
};
use crate::fuzz::{
    draw_array, draw_bool, draw_rest, draw_sized, draw_u16, draw_u32, draw_u8,
    law_what_is_written_first_is_drawn_first, odd, padded, past_sized, rest, sized, source, unread,
};
use crate::message::MessageType;
use crate::node::CHECKSUM_OFFSET;
use arbitrary::Unstructured;

verus! {

/// Largest body the comparison will use. The reference copies a body without
/// checking that its buffer has room for it.
pub const MAX_BODY: usize = 512;

/// How many types the reference is told about.
pub const REGISTERED_TYPES: u8 = 25;

/// The number of a type it is not told about.
pub const UNREGISTERED: u16 = 0x4242;

/// The types the reference is told about.
pub const REGISTERED: [MessageType; 25] = [
    MessageType::Ack,
    MessageType::Heartbeat,
    MessageType::EchoRequest,
    MessageType::EchoReply,
    MessageType::DeviceInfoRequest,
    MessageType::DeviceInfoReply,
    MessageType::ProtocolCapsRequest,
    MessageType::ProtocolCapsReply,
    MessageType::NeighborTableRequest,
    MessageType::NeighborTableReply,
    MessageType::ResourceTableRequest,
    MessageType::ResourceTableReply,
    MessageType::NeighborProtoRequest,
    MessageType::NeighborProtoReply,
    MessageType::SystemTimeRequest,
    MessageType::SystemTimeResponse,
    MessageType::SystemTimeSet,
    MessageType::ConfigGet,
    MessageType::ConfigValue,
    MessageType::NetStateRequest,
    MessageType::PowerStateReply,
    MessageType::RebootRequest,
    MessageType::NetAssertQuiet,
    MessageType::DfuStart,
    MessageType::DfuBootComplete,
];

/// One BCMP frame, plus the things the wire does to it after it is built.
#[derive(Debug)]
pub struct BcmpInput {
    /// Source address, as the sender writes it.
    pub src: Address,
    /// Destination address.
    pub dst: Address,
    /// Index into [`REGISTERED`].
    pub type_index: u8,
    /// Use [`UNREGISTERED`] instead, so that the receiver validates a frame it
    /// cannot dispatch.
    pub unregistered: bool,
    /// Sequence number.
    pub seq_num: u32,
    /// Message body, at most [`MAX_BODY`] bytes.
    pub body: Vec<u8>,
    /// Ingress port nibble stamped into the source address after the frame was
    /// built, as a receiving node does.
    pub ingress_stamp: u8,
    /// Source-address bytes 4 and 5, likewise stamped after the fact.
    pub legacy_ports: u16,
    /// Flip bits in the checksum, to exercise the reject path.
    pub corrupt_checksum: bool,
    /// Bytes appended past the IPv6 payload length, which must not be
    /// checksummed.
    pub trailing: u8,
}

impl Domain for BcmpInput {
    open spec fn in_domain(&self) -> bool {
        self.body@.len() <= MAX_BODY && self.type_index < REGISTERED_TYPES
    }

    fn clamp_to_domain(&mut self)
        ensures
            final(self).body@ == old(self).body@.take(
                shorter(old(self).body@.len(), MAX_BODY as nat) as int,
            ),
            final(self).type_index == old(self).type_index % REGISTERED_TYPES,
            final(self).same_but_for_domain(old(self)),
    {
        self.body.truncate(MAX_BODY);
        self.type_index = self.type_index % REGISTERED_TYPES;
    }
}

impl BcmpInput {
    /// Everything but the body and the type is the same.
    pub open spec fn same_but_for_domain(&self, other: &Self) -> bool {
        &&& self.src == other.src
        &&& self.dst == other.dst
        &&& self.unregistered == other.unregistered
        &&& self.seq_num == other.seq_num
        &&& self.ingress_stamp == other.ingress_stamp
        &&& self.legacy_ports == other.legacy_ports
        &&& self.corrupt_checksum == other.corrupt_checksum
        &&& self.trailing == other.trailing
    }

    /// Every field but the body is drawn from `s`, in the order both ways of
    /// drawing an input take them.
    pub open spec fn drawn_from(&self, s: Seq<u8>) -> bool {
        let s1 = rest(s, 16);
        let s2 = rest(s1, 16);
        let s3 = rest(s2, 1);
        let s4 = rest(s3, 1);
        let s5 = rest(s4, 4);
        let s6 = rest(s5, 1);
        let s7 = rest(s6, 2);
        let s8 = rest(s7, 1);
        &&& self.src@ == padded(s, 16)
        &&& self.dst@ == padded(s1, 16)
        &&& self.type_index == padded(s2, 1)[0] % REGISTERED_TYPES
        &&& self.unregistered == odd(s3)
        &&& self.seq_num == le(padded(s4, 4))
        &&& self.ingress_stamp == padded(s5, 1)[0]
        &&& self.legacy_ports == le(padded(s6, 2))
        &&& self.corrupt_checksum == odd(s7)
        &&& self.trailing == padded(s8, 1)[0]
    }

    /// What drawing every field but the body leaves of `s`.
    pub open spec fn past_scalars(s: Seq<u8>) -> Seq<u8> {
        rest(rest(rest(rest(rest(rest(rest(rest(rest(s, 16), 16), 1), 1), 4), 1), 2), 1), 1)
    }

    /// Every field but the body.
    fn scalars(u: &mut Unstructured<'_>) -> (r: Self)
        ensures
            unread(final(u)) == Self::past_scalars(unread(old(u))),
            r.body@.len() == 0,
            (BcmpInput { type_index: r.type_index % REGISTERED_TYPES, ..r }).drawn_from(
                unread(old(u)),
            ),
    {
        let src = draw_array::<16>(u);
        let dst = draw_array::<16>(u);
        let type_index = draw_u8(u);
        let unregistered = draw_bool(u);
        let seq_num = draw_u32(u);
        let ingress_stamp = draw_u8(u);
        let legacy_ports = draw_u16(u);
        let corrupt_checksum = draw_bool(u);
        let trailing = draw_u8(u);
        BcmpInput {
            src,
            dst,
            type_index,
            unregistered,
            seq_num,
            body: Vec::new(),
            ingress_stamp,
            legacy_ports,
            corrupt_checksum,
            trailing,
        }
    }

    /// Draw an input, its body by a length and then that many bytes.
    pub fn arbitrary(u: &mut Unstructured<'_>) -> (r: Self)
        ensures
            r.in_domain(),
            r.drawn_from(unread(old(u))),
            ({
                let body = sized(Self::past_scalars(unread(old(u))));
                r.body@ == body.take(shorter(body.len(), MAX_BODY as nat) as int)
            }),
            unread(final(u)) == past_sized(Self::past_scalars(unread(old(u)))),
    {
        let mut input = Self::scalars(u);
        input.body = draw_sized(u);
        input.clamp_to_domain();
        input
    }

    /// Draw an input, its body being everything that is left.
    pub fn arbitrary_take_rest(u: Unstructured<'_>) -> (r: Self)
        ensures
            r.in_domain(),
            r.drawn_from(unread(&u)),
            ({
                let body = Self::past_scalars(unread(&u));
                r.body@ == body.take(shorter(body.len(), MAX_BODY as nat) as int)
            }),
    {
        let mut u = u;
        let mut input = Self::scalars(&mut u);
        input.body = draw_rest(u);
        input.clamp_to_domain();
        input
    }

    /// The input a seed file holds.
    pub fn from_seed(seed: &[u8]) -> (r: Self)
        ensures
            r.in_domain(),
            r.drawn_from(seed@),
            ({
                let body = Self::past_scalars(seed@);
                r.body@ == body.take(shorter(body.len(), MAX_BODY as nat) as int)
            }),
    {
        Self::arbitrary_take_rest(source(seed))
    }

    /// The message type this input serialises as.
    #[must_use]
    pub fn message_type(&self) -> (r: MessageType)
        ensures
            r == REGISTERED@[(self.type_index % REGISTERED_TYPES) as int],
    {
        REGISTERED[(self.type_index % REGISTERED_TYPES) as usize]
    }

    /// The type the receiver sees, which may be one nothing handles.
    #[must_use]
    pub fn rx_message_type(&self) -> (r: MessageType)
        ensures
            r == if self.unregistered {
                MessageType::Other(UNREGISTERED)
            } else {
                REGISTERED@[(self.type_index % REGISTERED_TYPES) as int]
            },
    {
        if self.unregistered {
            MessageType::Other(UNREGISTERED)
        } else {
            self.message_type()
        }
    }
}

impl BcmpInput {
    /// The frame before its BCMP header and body are written: blank, and then
    /// filler past the payload length.
    pub open spec fn unwritten(&self, next_header: u8) -> Seq<u8> {
        blank(self.src@, self.dst@, next_header, BCMP_HEADER_LEN as nat + self.body@.len())
            + Seq::new(self.trailing as nat, |i: int| 0xA5u8)
    }

    /// The frame before its BCMP header and body are written. Overlong by
    /// filler that neither side may checksum.
    #[must_use]
    pub fn blank_frame(&self, next_header: u8) -> (r: Vec<u8>)
        requires
            self.in_domain(),
        ensures
            r@ == self.unwritten(next_header),
    {
        let mut frame = blank_frame(
            &self.src,
            &self.dst,
            next_header,
            BCMP_HEADER_LEN + self.body.len(),
        );
        let ghost start = frame@;
        let mut filled: u8 = 0;
        while filled < self.trailing
            invariant
                filled <= self.trailing,
                frame@ =~= start + Seq::new(filled as nat, |i: int| 0xA5u8),
            decreases self.trailing - filled,
        {
            frame.push(0xA5);
            filled = filled + 1;
        }
        frame
    }

    /// What the wire makes of a frame: the receiver's ingress port in the high
    /// nibble of the ports byte, the legacy bytes, and a spoiled checksum if
    /// the input asks for one.
    pub open spec fn on_the_wire(&self, frame: Seq<u8>) -> Seq<u8> {
        let stamped = frame.update(
            IPV6_INGRESS_EGRESS_PORTS_OFFSET as int,
            frame[IPV6_INGRESS_EGRESS_PORTS_OFFSET as int] | ((self.ingress_stamp & 0x0F) << 4u8),
        );
        let aged = overlay(
            stamped,
            LEGACY_PORT_CLEAR_OFFSET as int,
            be_bytes(self.legacy_ports as nat, 2),
        );
        if self.corrupt_checksum {
            aged.update(CHECKSUM_OFFSET as int, aged[CHECKSUM_OFFSET as int] ^ 0xFF)
        } else {
            aged
        }
    }

    /// Do to a serialised frame what the wire does to it.
    pub fn put_on_the_wire(&self, frame: &mut Vec<u8>)
        requires
            old(frame)@.len() >= MIN_FRAME_WITH_ADDRESSES + BCMP_HEADER_LEN,
        ensures
            final(frame)@ == self.on_the_wire(old(frame)@),
    {
        broadcast use lemma_be_bytes_len;

        let ports = frame[IPV6_INGRESS_EGRESS_PORTS_OFFSET];
        frame.set(
            IPV6_INGRESS_EGRESS_PORTS_OFFSET,
            ports | ((self.ingress_stamp & 0x0F) << 4u8),
        );
        let mut legacy: Vec<u8> = Vec::new();
        push_be(&mut legacy, self.legacy_ports as u64, 2);
        assert(legacy@ =~= be_bytes(self.legacy_ports as nat, 2));
        put(frame.as_mut_slice(), LEGACY_PORT_CLEAR_OFFSET, legacy.as_slice());
        if self.corrupt_checksum {
            let checksum = frame[CHECKSUM_OFFSET];
            frame.set(CHECKSUM_OFFSET, checksum ^ 0xFF);
        }
    }
}

/// What a receiver reports of a frame.
#[derive(Debug)]
pub struct Processed {
    /// The header's bytes.
    pub header: Vec<u8>,
    /// The body.
    pub payload: Vec<u8>,
    /// The source address.
    pub src: Address,
    /// The destination address.
    pub dst: Address,
    /// The body's length.
    pub size: u32,
    /// The port the frame came in on.
    pub ingress_port: u8,
}

impl Processed {
    /// Whether two reports say the same.
    pub open spec fn says_what(&self, other: &Self) -> bool {
        &&& self.header@ == other.header@
        &&& self.payload@ == other.payload@
        &&& self.src@ == other.src@
        &&& self.dst@ == other.dst@
        &&& self.size == other.size
        &&& self.ingress_port == other.ingress_port
    }

    /// Whether two reports say the same.
    #[must_use]
    pub fn same(&self, other: &Self) -> (r: bool)
        ensures
            r == self.says_what(other),
    {
        first_difference(self.header.as_slice(), other.header.as_slice()).is_none()
            && first_difference(self.payload.as_slice(), other.payload.as_slice()).is_none()
            && first_difference(&self.src, &other.src).is_none() && first_difference(
            &self.dst,
            &other.dst,
        ).is_none() && self.size == other.size && self.ingress_port == other.ingress_port
    }
}

/// What the node made of a frame.
#[derive(Debug)]
pub enum Verdict {
    /// It is valid, and says this.
    Accepted(Processed),
    /// Its checksum is wrong.
    BadChecksum,
    /// It is not a BCMP frame at all.
    Malformed,
}

/// What both sides did with one received frame.
#[derive(Debug)]
pub struct Acceptance {
    /// The frame as the reference left it.
    pub reference_frame: Vec<u8>,
    /// The frame as the node left it.
    pub node_frame: Vec<u8>,
    /// Whether the reference rejected it as a bad message.
    pub reference_rejected: bool,
    /// What the node made of it.
    pub node: Verdict,
    /// What the reference's processor was handed, if it ran.
    pub processed: Option<Processed>,
}

/// How two sides differ over a packet.
#[derive(Debug, Clone, Copy, PartialEq, Eq, Structural)]
pub enum PacketDivergence {
    /// The serialised frames differ, first at this byte.
    Serialized(usize),
    /// The received frame was left in different states, first at this byte.
    Rewritten(usize),
    /// One side rejected the checksum and the other did not.
    Checksum,
    /// The comparison built a frame that is not BCMP.
    Malformed,
    /// A registered type never reached its processor.
    NotDispatched,
    /// The two sides reported different things.
    Fields,
}

/// Whether the two sides agree about a received frame: they left it in the
/// same state, they reached the same verdict on its checksum, and if it was
/// valid the reference dispatched it, unless its type is unregistered, and
/// both reported the same.
pub open spec fn acceptance_agrees(unregistered: bool, seen: Acceptance) -> bool {
    &&& seen.reference_frame@ == seen.node_frame@
    &&& match seen.node {
        Verdict::Accepted(received) => !seen.reference_rejected && match seen.processed {
            Some(processed) => received.says_what(&processed),
            None => unregistered,
        },
        Verdict::BadChecksum => seen.reference_rejected,
        Verdict::Malformed => false,
    }
}

/// The divergence two serialised frames show.
pub open spec fn serialized_at(
    reference: Seq<u8>,
    node: Seq<u8>,
    divergence: PacketDivergence,
) -> bool {
    divergence matches PacketDivergence::Serialized(at) && crate::bytes::differ_first_at(
        reference,
        node,
        at as int,
    )
}

/// The divergence over a received frame the two sides do not agree about: in
/// its bytes before anything else, then in the verdict on its checksum, then in
/// what was reported.
pub open spec fn acceptance_parts(seen: Acceptance, divergence: PacketDivergence) -> bool {
    if seen.reference_frame@ != seen.node_frame@ {
        divergence matches PacketDivergence::Rewritten(at) && crate::bytes::differ_first_at(
            seen.reference_frame@,
            seen.node_frame@,
            at as int,
        )
    } else if seen.reference_rejected != (seen.node is BadChecksum) {
        divergence is Checksum
    } else if seen.node is Malformed {
        divergence is Malformed
    } else if seen.processed is None {
        divergence is NotDispatched
    } else {
        divergence is Fields
    }
}

/// Compare what the two sides serialised.
pub fn check_serialize(reference: &[u8], node: &[u8]) -> (r: Result<(), PacketDivergence>)
    ensures
        r is Ok <==> reference@ == node@,
        r matches Err(divergence) ==> serialized_at(reference@, node@, divergence),
{
    match first_difference(reference, node) {
        Some(at) => Err(PacketDivergence::Serialized(at)),
        None => Ok(()),
    }
}

/// Compare what the two sides made of a received frame.
pub fn check_accept(unregistered: bool, seen: &Acceptance) -> (r: Result<(), PacketDivergence>)
    ensures
        r is Ok <==> acceptance_agrees(unregistered, *seen),
        r matches Err(divergence) ==> acceptance_parts(*seen, divergence),
{
    match first_difference(seen.reference_frame.as_slice(), seen.node_frame.as_slice()) {
        Some(at) => return Err(PacketDivergence::Rewritten(at)),
        None => {},
    }
    let rejected = match seen.node {
        Verdict::BadChecksum => true,
        _ => false,
    };
    if seen.reference_rejected != rejected {
        return Err(PacketDivergence::Checksum);
    }
    match &seen.node {
        Verdict::BadChecksum => Ok(()),
        Verdict::Malformed => Err(PacketDivergence::Malformed),
        Verdict::Accepted(received) => match &seen.processed {
            None => if unregistered {
                Ok(())
            } else {
                Err(PacketDivergence::NotDispatched)
            },
            Some(processed) => if received.same(processed) {
                Ok(())
            } else {
                Err(PacketDivergence::Fields)
            },
        },
    }
}

/// Compare both halves: what was serialised, then what was received.
pub fn check(
    input: &BcmpInput,
    reference: &[u8],
    node: &[u8],
    seen: &Acceptance,
) -> (r: Result<(), PacketDivergence>)
    ensures
        r is Ok <==> reference@ == node@ && acceptance_agrees(input.unregistered, *seen),
        r matches Err(divergence) ==> if reference@ == node@ {
            acceptance_parts(*seen, divergence)
        } else {
            serialized_at(reference@, node@, divergence)
        },
{
    match check_serialize(reference, node) {
        Ok(()) => check_accept(input.unregistered, seen),
        Err(divergence) => Err(divergence),
    }
}

/// The wire's rewriting of a frame lies outside what a receiver checks: it
/// touches the ports byte, the legacy bytes and, to spoil it, the checksum, and
/// nothing else.
pub proof fn law_the_wire_touches_only_what_a_receiver_clears(input: BcmpInput, frame: Seq<u8>, i: int)
    requires
        frame.len() >= MIN_FRAME_WITH_ADDRESSES + BCMP_HEADER_LEN,
        0 <= i < frame.len(),
        !crate::node::rewritten(i),
    ensures
        input.on_the_wire(frame).len() == frame.len(),
        input.on_the_wire(frame)[i] == frame[i],
{
    broadcast use lemma_be_bytes_len;

}

/// An input is drawn field by field from the bytes that were written for it.
pub proof fn law_a_written_input_is_drawn_back(
    input: BcmpInput,
    src: Seq<u8>,
    dst: Seq<u8>,
    kind: u8,
    unregistered: u8,
    number: nat,
    stamp: u8,
    legacy: nat,
    corrupt: u8,
    trailing: u8,
    more: Seq<u8>,
)
    requires
        src.len() == 16,
        dst.len() == 16,
        number <= u32::MAX,
        legacy <= u16::MAX,
        input.drawn_from(
            src + (dst + (seq![kind] + (seq![unregistered] + (le_bytes(number, 4) + (seq![stamp] + (
            le_bytes(legacy, 2) + (seq![corrupt] + (seq![trailing] + more)))))))),
        ),
    ensures
        input.src@ =~= src,
        input.dst@ =~= dst,
        (kind - input.type_index) % 25 == 0,
        kind < 25 ==> input.type_index == kind,
        input.unregistered == (unregistered % 2 == 1),
        input.seq_num == number,
        input.ingress_stamp == stamp,
        input.legacy_ports == legacy,
        input.corrupt_checksum == (corrupt % 2 == 1),
        input.trailing == trailing,
        BcmpInput::past_scalars(
            src + (dst + (seq![kind] + (seq![unregistered] + (le_bytes(number, 4) + (seq![stamp] + (
            le_bytes(legacy, 2) + (seq![corrupt] + (seq![trailing] + more)))))))),
        ) =~= more,
{
    broadcast use lemma_le_bytes_len;

    let s8 = seq![trailing] + more;
    let s7 = seq![corrupt] + s8;
    let s6 = le_bytes(legacy, 2) + s7;
    let s5 = seq![stamp] + s6;
    let s4 = le_bytes(number, 4) + s5;
    let s3 = seq![unregistered] + s4;
    let s2 = seq![kind] + s3;
    let s1 = dst + s2;
    law_le_bytes_fit(number);
    law_le_bytes_fit(legacy);
    law_what_is_written_first_is_drawn_first(src, s1, 0);
    law_what_is_written_first_is_drawn_first(dst, s2, 0);
    law_what_is_written_first_is_drawn_first(seq![kind], s3, 0);
    law_what_is_written_first_is_drawn_first(seq![unregistered], s4, 0);
    law_what_is_written_first_is_drawn_first(le_bytes(number, 4), s5, 0);
    law_what_is_written_first_is_drawn_first(seq![stamp], s6, 0);
    law_what_is_written_first_is_drawn_first(le_bytes(legacy, 2), s7, 0);
    law_what_is_written_first_is_drawn_first(seq![corrupt], s8, 0);
    law_what_is_written_first_is_drawn_first(seq![trailing], more, 0);
}

/// Folding an input into the domain keeps everything but its body and its type.
pub proof fn law_folding_keeps_the_input(before: BcmpInput, after: BcmpInput)
    requires
        after.same_but_for_domain(&before),
    ensures
        after.src == before.src && after.dst == before.dst,
        after.unregistered == before.unregistered && after.seq_num == before.seq_num,
        after.ingress_stamp == before.ingress_stamp && after.legacy_ports == before.legacy_ports,
        after.corrupt_checksum == before.corrupt_checksum && after.trailing == before.trailing,
{
}

/// A frame before it is written is blank but for its headers, is as long as its
/// header and body call for, and trails as many filler bytes as it was told to.
pub proof fn law_an_unwritten_frame_trails_what_it_was_told_to(
    input: BcmpInput,
    next_header: u8,
    i: int,
)
    requires
        input.body@.len() <= 60_000,
    ensures
        ({
            let frame = input.unwritten(next_header);
            let end = 54 + 13 + input.body@.len();
            &&& frame.len() == end + input.trailing
            &&& end <= i < frame.len() ==> frame[i] == 0xA5
            &&& frame.subrange(22, 38) =~= input.src@
            &&& frame.subrange(38, 54) =~= input.dst@
            &&& frame[20] == next_header
            &&& frame[18] * 256 + frame[19] == 13 + input.body@.len()
        }),
{
    let carried = 13 + input.body@.len();
    crate::diff::frames::law_a_blank_frame_is_blank_but_for_its_headers(
        input.src@,
        input.dst@,
        next_header,
        carried,
        0,
    );
    let plain = blank(input.src@, input.dst@, next_header, carried);
    let frame = input.unwritten(next_header);
    assert(frame.subrange(22, 38) =~= plain.subrange(22, 38));
    assert(frame.subrange(38, 54) =~= plain.subrange(38, 54));
}

/// The wire stamps the ingress port into the high nibble of the port byte and
/// the legacy ports into two bytes, and flips the first byte of the checksum
/// if it is to spoil it; every other byte goes through as it was.
pub proof fn law_the_wire_stamps_ports_and_spoils_checksums(
    input: BcmpInput,
    frame: Seq<u8>,
    i: int,
)
    requires
        frame.len() >= 67,
        frame[24] == 0,
        0 <= i < frame.len(),
    ensures
        ({
            let wire = input.on_the_wire(frame);
            &&& wire.len() == frame.len()
            &&& wire[24] == (input.ingress_stamp % 16) * 16
            &&& wire[26] * 256 + wire[27] == input.legacy_ports
            &&& input.corrupt_checksum ==> wire[56] == 255 - frame[56]
            &&& !input.corrupt_checksum ==> wire[56] == frame[56]
            &&& i != 24 && i != 26 && i != 27 && i != 56 ==> wire[i] == frame[i]
        }),
{
    broadcast use lemma_be_bytes_len;

    reveal_with_fuel(be_bytes, 3);
    let stamp = input.ingress_stamp;
    let byte = frame[56];
    assert(0u8 | ((stamp & 0x0F) << 4u8) == (stamp % 16) * 16) by (bit_vector);
    assert(byte ^ 0xFF == 255 - byte) by (bit_vector);
}

/// Two sides took a frame for the same exactly if they read the same header,
/// payload, addresses, size and ingress port out of it.
pub proof fn law_the_same_reading_says_the_same(a: Processed, b: Processed)
    ensures
        a.says_what(&b) <==> a.header@ == b.header@ && a.payload@ == b.payload@ && a.src@ == b.src@
            && a.dst@ == b.dst@ && a.size == b.size && a.ingress_port == b.ingress_port,
        a.says_what(&a),
{
}

/// Acceptance agrees only if both sides rewrote the frame alike and both took
/// it or both refused its checksum; a frame that was taken was dispatched with
/// the same reading, unless nothing registers its type.
pub proof fn law_acceptance_agrees_if_both_sides_read_the_same(
    unregistered: bool,
    seen: Acceptance,
)
    ensures
        acceptance_agrees(unregistered, seen) ==> {
            &&& seen.reference_frame@ == seen.node_frame@
            &&& seen.reference_rejected <==> seen.node is BadChecksum
            &&& seen.node !is Malformed
            &&& seen.processed is None && !seen.reference_rejected ==> unregistered
        },
        acceptance_agrees(unregistered, seen) && seen.node is Accepted && seen.processed is Some
            ==> (seen.node->0).says_what(&seen.processed->0),
        seen.reference_frame@ == seen.node_frame@ && seen.reference_rejected && seen.node
            is BadChecksum ==> acceptance_agrees(unregistered, seen),
        seen.reference_frame@ == seen.node_frame@ && !seen.reference_rejected && seen.node
            is Accepted && seen.processed is None ==> (acceptance_agrees(unregistered, seen)
            <==> unregistered),
{
}

/// What is faulted about an acceptance is really wrong with it.
pub proof fn law_an_acceptance_is_faulted_for_what_is_wrong(
    seen: Acceptance,
    divergence: PacketDivergence,
)
    requires
        acceptance_parts(seen, divergence),
    ensures
        match divergence {
            PacketDivergence::Rewritten(_) => seen.reference_frame@ != seen.node_frame@,
            PacketDivergence::Checksum => seen.reference_rejected != (seen.node is BadChecksum),
            PacketDivergence::Malformed => seen.node is Malformed,
            PacketDivergence::NotDispatched => seen.processed is None,
            PacketDivergence::Fields => seen.processed is Some && seen.reference_frame@
                == seen.node_frame@,
            _ => false,
        },
{
}

/// What an input may be: a body of at most 512 bytes, and one of 25 types.
pub proof fn law_the_domain_is_what_the_reference_takes(input: BcmpInput)
    ensures
        input.in_domain() <==> {
            &&& input.body@.len() <= 512
            &&& input.type_index < 25
        },
{
}

} // verus!
