//! Comparing the system-time messages: the answer a node gives, the decision
//! not to give one, the decision to pass the message on, and the clock that is
//! left behind.
//!
//! The reference reads the sixteen-byte header, and for two of the messages
//! the timestamp behind it, without looking at how much arrived, so an
//! injected body is never shorter than its type calls for. What arrives past
//! that must change nothing.
//!
//! Timestamps stay within a `u32` of seconds, past which the reference's own
//! conversion wraps its year.
use vstd::prelude::*;

use crate::bytes::{be, be16_at, copied, law_le_bytes_fit, le, le_bytes, shorter};
use crate::diff::compare::{captures_view, diverges, same_frames, Captured, FrameDivergence};
use crate::diff::domain::{fold_port, folded_port, Domain};
use crate::diff::frames::{blank, blank_frame, Unsealed};
use crate::diff::stack::{NODE_ID, NUM_PORTS};
use crate::frame::{
    Address, BCMP_HEADER_LEN, GLOBAL_MULTICAST, IPV6_INGRESS_EGRESS_PORTS_OFFSET,
    IPV6_PAYLOAD_LENGTH_OFFSET, LINK_LOCAL_MULTICAST, MIN_FRAME_WITH_ADDRESSES,
};
use crate::fuzz::{
    draw_bool, draw_bytes, draw_rest, draw_sized, draw_u64, draw_u8,
    law_what_is_written_first_is_drawn_first, padded, past_sized, rest, sized, source, unread,
    NotEnoughData,
};
use crate::message::{MessageType, SystemTimeHeader};
use arbitrary::Unstructured;

verus! {

/// Node id the injected message appears to come from. Anything but the
/// reference's.
pub const PEER_NODE_ID: u64 = 0x0000_0000_55AA_0011;

/// A third node, so that a message can be for somebody who is neither end.
pub const THIRD_NODE_ID: u64 = 0x0000_0000_0BAD_F00D;

/// One microsecond past the last timestamp a `u32` of seconds can represent:
/// 2106-02-07T06:28:16Z.
pub const MAX_UTC_US: u64 = 0x1_0000_0000 * 1_000_000;

/// Most trailing bytes an injected body carries past the message it declares.
pub const MAX_TRAILING: usize = 64;

/// Longest input for the decoders.
pub const MAX_PROBE: usize = 512;

/// Which of the three system-time messages to inject.
#[derive(Debug, Clone, Copy, PartialEq, Eq, Structural)]
pub enum TimeMessage {
    /// Answered when the target matches exactly.
    Request,
    /// Never answered.
    Response,
    /// Sets the clock, and is answered.
    Assign,
}

impl TimeMessage {
    /// The type this is sent as.
    pub open spec fn sent_as(self) -> MessageType {
        match self {
            TimeMessage::Request => MessageType::SystemTimeRequest,
            TimeMessage::Response => MessageType::SystemTimeResponse,
            TimeMessage::Assign => MessageType::SystemTimeSet,
        }
    }

    /// The type this is sent as.
    #[must_use]
    pub fn message_type(self) -> (r: MessageType)
        ensures
            r == self.sent_as(),
    {
        match self {
            TimeMessage::Request => MessageType::SystemTimeRequest,
            TimeMessage::Response => MessageType::SystemTimeResponse,
            TimeMessage::Assign => MessageType::SystemTimeSet,
        }
    }

    /// The length of the message: two node ids, and a timestamp in all but a
    /// request.
    pub open spec fn length(self) -> nat {
        if self is Request {
            16
        } else {
            24
        }
    }

    /// Shortest body the reference can read without going out of bounds.
    #[must_use]
    pub fn body_len(self) -> (r: usize)
        ensures
            r == self.length(),
    {
        match self {
            TimeMessage::Request => 16,
            TimeMessage::Response => 24,
            TimeMessage::Assign => 24,
        }
    }

    /// The message a byte selects.
    pub open spec fn selected(byte: u8) -> TimeMessage {
        if byte % 3 == 0 {
            TimeMessage::Request
        } else if byte % 3 == 1 {
            TimeMessage::Response
        } else {
            TimeMessage::Assign
        }
    }

    fn select(byte: u8) -> (r: TimeMessage)
        ensures
            r == Self::selected(byte),
    {
        match byte % 3 {
            0 => TimeMessage::Request,
            1 => TimeMessage::Response,
            _ => TimeMessage::Assign,
        }
    }
}

/// Who the injected message names in its body.
#[derive(Debug, Clone, Copy, PartialEq, Eq, Structural)]
pub enum Target {
    /// Node 0, which every node takes for itself. Only a set to it is
    /// honoured.
    Everyone,
    /// The reference's own node id.
    ThisNode,
    /// A third node's, which makes the reference pass the message on.
    OtherNode,
}

impl Target {
    /// The node id that names it.
    pub open spec fn id(self) -> u64 {
        match self {
            Target::Everyone => 0,
            Target::ThisNode => NODE_ID,
            Target::OtherNode => THIRD_NODE_ID,
        }
    }

    /// The node id that names it.
    #[must_use]
    pub fn node_id(self) -> (r: u64)
        ensures
            r == self.id(),
    {
        match self {
            Target::Everyone => 0,
            Target::ThisNode => NODE_ID,
            Target::OtherNode => THIRD_NODE_ID,
        }
    }

    /// The target a byte selects.
    pub open spec fn selected(byte: u8) -> Target {
        if byte % 3 == 0 {
            Target::Everyone
        } else if byte % 3 == 1 {
            Target::ThisNode
        } else {
            Target::OtherNode
        }
    }

    fn select(byte: u8) -> (r: Target)
        ensures
            r == Self::selected(byte),
    {
        match byte % 3 {
            0 => Target::Everyone,
            1 => Target::ThisNode,
            _ => Target::OtherNode,
        }
    }
}

/// One system-time message put to both sides, and the clock they start from.
#[derive(Debug)]
pub struct TimeInput {
    /// Which of the three to inject.
    pub message: TimeMessage,
    /// Who the body addresses.
    pub target: Target,
    /// Port it arrives on, 1..=[`NUM_PORTS`].
    pub ingress_port: u8,
    /// Address the frame to every node rather than to the neighbours.
    pub global_multicast: bool,
    /// Microseconds both clocks are set to before the message arrives, below
    /// [`MAX_UTC_US`].
    pub clock_us: u64,
    /// The timestamp the message carries, unless it is a request, below
    /// [`MAX_UTC_US`].
    pub utc_time_us: u64,
    /// Bytes past the declared message, at most [`MAX_TRAILING`].
    pub trailing: Vec<u8>,
    /// Bytes for the decoders, never put to the reference; at most
    /// [`MAX_PROBE`].
    pub decode_probe: Vec<u8>,
}

impl Domain for TimeInput {
    open spec fn in_domain(&self) -> bool {
        &&& 1 <= self.ingress_port <= NUM_PORTS
        &&& self.clock_us < MAX_UTC_US
        &&& self.utc_time_us < MAX_UTC_US
        &&& self.trailing@.len() <= MAX_TRAILING
        &&& self.decode_probe@.len() <= MAX_PROBE
    }

    fn clamp_to_domain(&mut self)
        ensures
            final(self).message == old(self).message,
            final(self).target == old(self).target,
            final(self).global_multicast == old(self).global_multicast,
            final(self).ingress_port == folded_port(old(self).ingress_port, NUM_PORTS),
            final(self).clock_us == old(self).clock_us % MAX_UTC_US,
            final(self).utc_time_us == old(self).utc_time_us % MAX_UTC_US,
            final(self).trailing@ == old(self).trailing@.take(
                shorter(old(self).trailing@.len(), MAX_TRAILING as nat) as int,
            ),
            final(self).decode_probe@ == old(self).decode_probe@.take(
                shorter(old(self).decode_probe@.len(), MAX_PROBE as nat) as int,
            ),
    {
        self.ingress_port = fold_port(self.ingress_port, NUM_PORTS);
        self.clock_us = self.clock_us % MAX_UTC_US;
        self.utc_time_us = self.utc_time_us % MAX_UTC_US;
        self.trailing.truncate(MAX_TRAILING);
        self.decode_probe.truncate(MAX_PROBE);
    }
}

/// How many trailing bytes an input drawn from `s` has.
pub open spec fn drawn_trailing(s: Seq<u8>) -> nat {
    (padded(s, 3)[2] % 65) as nat
}

impl TimeInput {
    /// Every field but the probe is drawn from `s` and folded into the domain.
    pub open spec fn drawn_from(&self, s: Seq<u8>) -> bool {
        &&& self.message == TimeMessage::selected(padded(s, 5)[0])
        &&& self.target == Target::selected(padded(s, 5)[1])
        &&& self.ingress_port == folded_port(padded(s, 5)[3], NUM_PORTS)
        &&& self.global_multicast == (padded(s, 5)[4] % 2 == 1)
        &&& self.clock_us == (le(padded(rest(s, 5), 8)) % MAX_UTC_US as nat)
        &&& self.utc_time_us == (le(padded(rest(s, 13), 8)) % MAX_UTC_US as nat)
        &&& self.trailing@ == rest(s, 21).subrange(0, drawn_trailing(s) as int)
    }

    /// Every field but the probe, before they are folded into the domain. It
    /// fails when there are too few bytes for the trailing ones.
    fn scalars(u: &mut Unstructured<'_>) -> (r: Result<Self, NotEnoughData>)
        ensures
            ({
                let s = unread(old(u));
                &&& r is Ok <==> drawn_trailing(s) <= rest(s, 21).len()
                &&& r matches Ok(input) ==> {
                    &&& unread(final(u)) == rest(s, 21 + drawn_trailing(s))
                    &&& input.message == TimeMessage::selected(padded(s, 5)[0])
                    &&& input.target == Target::selected(padded(s, 5)[1])
                    &&& input.ingress_port == padded(s, 5)[3]
                    &&& input.global_multicast == (padded(s, 5)[4] % 2 == 1)
                    &&& input.clock_us == le(padded(rest(s, 5), 8))
                    &&& input.utc_time_us == le(padded(rest(s, 13), 8))
                    &&& input.trailing@ == rest(s, 21).subrange(0, drawn_trailing(s) as int)
                    &&& input.trailing@.len() == drawn_trailing(s)
                }
                &&& r is Err ==> unread(final(u)) == rest(s, 21)
            }),
    {
        let ghost s = unread(u);
        let message = TimeMessage::select(draw_u8(u));
        let target = Target::select(draw_u8(u));
        let trailing_len: usize = draw_u8(u) as usize % (MAX_TRAILING + 1);
        let ingress_port = draw_u8(u);
        let global_multicast = draw_bool(u);
        assert(unread(u) =~= rest(s, 5));
        let clock_us = draw_u64(u);
        assert(unread(u) =~= rest(s, 13));
        let utc_time_us = draw_u64(u);
        assert(unread(u) =~= rest(s, 21));
        match draw_bytes(u, trailing_len) {
            Ok(trailing) => {
                assert(unread(u) =~= rest(s, 21 + drawn_trailing(s)));
                Ok(
                    TimeInput {
                        message,
                        target,
                        ingress_port,
                        global_multicast,
                        clock_us,
                        utc_time_us,
                        trailing,
                        decode_probe: Vec::new(),
                    },
                )
            },
            Err(error) => Err(error),
        }
    }

    /// Draw an input, its probe by a length and then that many bytes.
    pub fn arbitrary(u: &mut Unstructured<'_>) -> (r: Result<Self, NotEnoughData>)
        ensures
            ({
                let s = unread(old(u));
                &&& r is Ok <==> drawn_trailing(s) <= rest(s, 21).len()
                &&& r matches Ok(input) ==> {
                    let probe = sized(rest(s, 21 + drawn_trailing(s)));
                    &&& input.in_domain()
                    &&& input.drawn_from(s)
                    &&& input.decode_probe@ == probe.take(
                        shorter(probe.len(), MAX_PROBE as nat) as int,
                    )
                    &&& unread(final(u)) == past_sized(rest(s, 21 + drawn_trailing(s)))
                }
                &&& r is Err ==> unread(final(u)) == rest(s, 21)
            }),
    {
        match Self::scalars(u) {
            Ok(mut input) => {
                input.decode_probe = draw_sized(u);
                let ghost trailing = input.trailing@;
                input.clamp_to_domain();
                assert(input.trailing@ =~= trailing);
                Ok(input)
            },
            Err(error) => Err(error),
        }
    }

    /// Draw an input, its probe being everything that is left.
    pub fn arbitrary_take_rest(u: Unstructured<'_>) -> (r: Result<Self, NotEnoughData>)
        ensures
            ({
                let s = unread(&u);
                &&& r is Ok <==> drawn_trailing(s) <= rest(s, 21).len()
                &&& r matches Ok(input) ==> {
                    let probe = rest(s, 21 + drawn_trailing(s));
                    &&& input.in_domain()
                    &&& input.drawn_from(s)
                    &&& input.decode_probe@ == probe.take(
                        shorter(probe.len(), MAX_PROBE as nat) as int,
                    )
                }
            }),
    {
        let mut u = u;
        match Self::scalars(&mut u) {
            Ok(mut input) => {
                input.decode_probe = draw_rest(u);
                let ghost trailing = input.trailing@;
                input.clamp_to_domain();
                assert(input.trailing@ =~= trailing);
                Ok(input)
            },
            Err(error) => Err(error),
        }
    }

    /// The input a seed file holds, if it holds one.
    pub fn from_seed(seed: &[u8]) -> (r: Result<Self, NotEnoughData>)
        ensures
            r is Ok <==> drawn_trailing(seed@) <= rest(seed@, 21).len(),
            r matches Ok(input) ==> input.in_domain() && input.drawn_from(seed@)
                && input.decode_probe@ == rest(seed@, 21 + drawn_trailing(seed@)).take(
                shorter(
                    rest(seed@, 21 + drawn_trailing(seed@)).len(),
                    MAX_PROBE as nat,
                ) as int,
            ),
    {
        Self::arbitrary_take_rest(source(seed))
    }

    /// Where the frame is addressed.
    pub open spec fn addressed(&self) -> Address {
        if self.global_multicast {
            GLOBAL_MULTICAST
        } else {
            LINK_LOCAL_MULTICAST
        }
    }

    /// Where the frame is addressed.
    #[must_use]
    pub fn destination(&self) -> (r: Address)
        ensures
            r == self.addressed(),
    {
        if self.global_multicast {
            GLOBAL_MULTICAST
        } else {
            LINK_LOCAL_MULTICAST
        }
    }

    /// Whether the message is answered, given that the clock can be read.
    pub open spec fn answered(&self) -> bool {
        match self.message {
            TimeMessage::Request => self.target is ThisNode,
            TimeMessage::Response => false,
            TimeMessage::Assign => !(self.target is OtherNode),
        }
    }

    /// Whether the reference answers this message: a request has to name it
    /// exactly, a set only has to be for it, and a response is never answered.
    /// Both clocks are set first, so reading one never fails.
    #[must_use]
    pub fn expects_response(&self) -> (r: bool)
        ensures
            r == self.answered(),
    {
        match self.message {
            TimeMessage::Request => self.target == Target::ThisNode,
            TimeMessage::Response => false,
            TimeMessage::Assign => self.target != Target::OtherNode,
        }
    }

    /// The timestamp of an answer: a set is answered with what was asked for,
    /// whatever the clock kept of it, and a request with what the clock read.
    pub open spec fn answer_us(&self, before: u64) -> u64 {
        if self.message is Assign {
            self.utc_time_us
        } else {
            before
        }
    }

    /// The ids the body starts with.
    #[must_use]
    pub fn header(&self) -> (r: SystemTimeHeader)
        ensures
            r.target_node_id == self.target.id(),
            r.source_node_id == PEER_NODE_ID,
    {
        SystemTimeHeader {
            target_node_id: self.target.node_id(),
            source_node_id: PEER_NODE_ID,
        }
    }

    /// The timestamp the message carries: one the reference's calendar holds.
    #[must_use]
    pub fn carried_utc_us(&self) -> (r: u64)
        ensures
            r == self.utc_time_us % MAX_UTC_US,
    {
        self.utc_time_us % MAX_UTC_US
    }

    /// The bytes that trail the message: no more than the domain allows.
    pub open spec fn carried_trailing(&self) -> Seq<u8> {
        self.trailing@.take(shorter(self.trailing@.len(), MAX_TRAILING as nat) as int)
    }

    /// The body: the encoded message, then the trailing bytes.
    #[must_use]
    pub fn body(&self, encoded: &[u8]) -> (r: Vec<u8>)
        ensures
            r@ == encoded@ + self.carried_trailing(),
    {
        let mut trailing = copied(self.trailing.as_slice());
        trailing.truncate(MAX_TRAILING);
        assert(trailing@ =~= self.carried_trailing());
        let mut body = copied(encoded);
        body.extend_from_slice(trailing.as_slice());
        assert(body@ =~= encoded@ + self.carried_trailing());
        body
    }
}

/// The frame an input injects once it is in the domain, before its header and
/// checksum are written. `encoded` is the message without its trailing bytes,
/// and `peer` the link-local address of [`PEER_NODE_ID`].
#[must_use]
pub fn build_frame(
    input: &TimeInput,
    encoded: &[u8],
    peer: &Address,
    next_header: u8,
) -> (r: Unsealed)
    requires
        encoded@.len() == input.message.length(),
    ensures
        r.frame@ == blank(
            peer@,
            input.addressed()@,
            next_header,
            BCMP_HEADER_LEN as nat + encoded@.len() + input.carried_trailing().len(),
        ),
        r.message_type == input.message.sent_as(),
        r.body@ == encoded@ + input.carried_trailing(),
{
    let body = input.body(encoded);
    let frame = blank_frame(
        peer,
        &input.destination(),
        next_header,
        BCMP_HEADER_LEN + body.len(),
    );
    Unsealed { frame, message_type: input.message.message_type(), body }
}

/// What a receiver made of a captured frame.
#[derive(Debug, Clone, Copy, PartialEq, Eq, Structural)]
pub enum Verdict {
    /// It took the frame.
    Accepted,
    /// The checksum does not verify.
    BadChecksum,
    /// The frame is refused for another reason.
    Refused,
}

/// How a captured frame is read back.
#[derive(Debug, PartialEq, Eq)]
pub enum ReadBack {
    /// As the receiver read it.
    Received,
    /// Straight off the wire: the header and body, without the checksum having
    /// been verified.
    Unverified(Vec<u8>),
}

/// The header and body of a captured frame.
pub open spec fn region(captured: Seq<u8>) -> Seq<u8> {
    captured.subrange(
        MIN_FRAME_WITH_ADDRESSES as int,
        MIN_FRAME_WITH_ADDRESSES + be(
            captured.subrange(
                IPV6_PAYLOAD_LENGTH_OFFSET as int,
                IPV6_PAYLOAD_LENGTH_OFFSET + 2,
            ),
        ),
    )
}

/// Whether an egress port was stamped into a captured frame.
pub open spec fn stamped(captured: Seq<u8>) -> bool {
    captured[IPV6_INGRESS_EGRESS_PORTS_OFFSET as int] & 0x0F != 0
}

/// Whether a captured frame is whole: it holds the payload its header
/// announces, and that holds at least a message header.
pub open spec fn whole(captured: Seq<u8>) -> bool {
    let payload = be(
        captured.subrange(IPV6_PAYLOAD_LENGTH_OFFSET as int, IPV6_PAYLOAD_LENGTH_OFFSET + 2),
    );
    &&& captured.len() >= MIN_FRAME_WITH_ADDRESSES + payload
    &&& payload >= BCMP_HEADER_LEN
}

/// Decide how a captured frame is read back.
///
/// Stamping the egress port patches the checksum without folding the carry
/// back in, which corrupts it when the carry itself carries. So a stamped
/// frame may fail its checksum, and is read anyway: the patch touches nothing
/// but the checksum. Any other failure is one.
pub fn read_back(captured: &[u8], verdict: Verdict) -> (r: Result<ReadBack, Verdict>)
    requires
        whole(captured@),
    ensures
        match r {
            Ok(ReadBack::Received) => verdict is Accepted,
            Ok(ReadBack::Unverified(bytes)) => {
                &&& verdict is BadChecksum
                &&& stamped(captured@)
                &&& bytes@ == region(captured@)
                &&& bytes@.len() >= BCMP_HEADER_LEN
            },
            Err(refused) => {
                &&& refused == verdict
                &&& verdict is Refused || verdict is BadChecksum && !stamped(captured@)
            },
        },
{
    let payload_len = be16_at(captured, IPV6_PAYLOAD_LENGTH_OFFSET) as usize;
    let nibble = captured[IPV6_INGRESS_EGRESS_PORTS_OFFSET] & 0x0F;
    match verdict {
        Verdict::Accepted => Ok(ReadBack::Received),
        Verdict::BadChecksum => {
            if nibble != 0 {
                let bytes = vstd::slice::slice_subrange(
                    captured,
                    MIN_FRAME_WITH_ADDRESSES,
                    MIN_FRAME_WITH_ADDRESSES + payload_len,
                );
                Ok(ReadBack::Unverified(copied(bytes)))
            } else {
                Err(Verdict::BadChecksum)
            }
        },
        Verdict::Refused => Err(Verdict::Refused),
    }
}

/// One frame the reference transmitted, as read back.
#[derive(Debug, Clone, Copy)]
pub struct Sighting {
    /// The type in its header.
    pub message_type: MessageType,
    /// Its body as a response, if it decodes as one: the ids and the
    /// timestamp.
    pub response: Option<(SystemTimeHeader, u64)>,
    /// Whether encoding the response again gives the bytes that were read.
    pub encodes_back: bool,
}

impl Sighting {
    /// Whether this is a response that does not decode.
    pub open spec fn garbled(self) -> bool {
        self.message_type is SystemTimeResponse && self.response is None
    }

    /// Whether this is a response the reference built. A relayed or re-flooded
    /// copy of the injected message has the same type, and only the body's
    /// source tells the two apart.
    pub open spec fn own(self) -> bool {
        self.message_type is SystemTimeResponse && (self.response matches Some(response)
            && response.0.source_node_id == NODE_ID)
    }

    /// Whether a response the reference built is the one `input` asks for.
    pub open spec fn right(self, input: &TimeInput, before: u64) -> bool {
        self.response matches Some(response) && response.0.target_node_id == PEER_NODE_ID
            && response.1 == input.answer_us(before) && self.encodes_back
    }
}

/// How many of `seen` are responses the reference built.
pub open spec fn answers(seen: Seq<Sighting>) -> nat
    decreases seen.len(),
{
    if seen.len() == 0 {
        0
    } else {
        answers(seen.drop_last()) + if seen.last().own() {
            1nat
        } else {
            0nat
        }
    }
}

/// What both sides did with one input.
#[derive(Debug)]
pub struct TimeSeen {
    /// What the reference's clock read before the message, in microseconds.
    pub reference_before: u64,
    /// What the node's did.
    pub node_before: u64,
    /// The frames the reference sent.
    pub reference: Vec<Captured>,
    /// The frames the node sent.
    pub node: Vec<Captured>,
    /// What the reference's clock read afterwards.
    pub reference_after: u64,
    /// What the node's did.
    pub node_after: u64,
    /// The reference's frames, read back.
    pub sightings: Vec<Sighting>,
}

/// How the handling of a system-time message differs.
#[derive(Debug, Clone, Copy, PartialEq, Eq, Structural)]
pub enum TimeDivergence {
    /// The clocks disagree before the message arrives.
    ClocksBefore,
    /// The frames differ.
    Frames(FrameDivergence),
    /// The clocks disagree afterwards.
    ClocksAfter,
    /// A response does not decode.
    Garbled {
        /// Which frame.
        index: usize,
    },
    /// A response is addressed to somebody other than the body's source,
    /// carries the wrong timestamp, or does not encode back to itself.
    Response {
        /// Which frame.
        index: usize,
    },
    /// There are too few or too many responses.
    Responses {
        /// How many there are.
        count: usize,
    },
}

/// The first `n` frames of the reference, read back, are what they should be:
/// none is garbled, and every response of this node is right.
pub open spec fn in_order(input: TimeInput, seen: TimeSeen, n: int) -> bool {
    forall|i: int|
        0 <= i < n ==> !(#[trigger] seen.sightings@[i]).garbled() && (seen.sightings@[i].own()
            ==> seen.sightings@[i].right(&input, seen.reference_before))
}

/// The divergence the handling of a message shows: in the clocks before, the
/// frames, the clocks after, the first response that is not right, and last in
/// how many responses there are.
pub open spec fn handling_parts(
    input: TimeInput,
    seen: TimeSeen,
    divergence: TimeDivergence,
) -> bool {
    if seen.reference_before != seen.node_before {
        divergence is ClocksBefore
    } else if captures_view(seen.reference@) != captures_view(seen.node@) {
        divergence matches TimeDivergence::Frames(frames) && diverges(
            seen.reference@,
            seen.node@,
            frames,
        )
    } else if seen.reference_after != seen.node_after {
        divergence is ClocksAfter
    } else {
        match divergence {
            TimeDivergence::Garbled { index } => {
                &&& index < seen.sightings@.len()
                &&& in_order(input, seen, index as int)
                &&& seen.sightings@[index as int].garbled()
            },
            TimeDivergence::Response { index } => {
                &&& index < seen.sightings@.len()
                &&& in_order(input, seen, index as int)
                &&& seen.sightings@[index as int].own()
                &&& !seen.sightings@[index as int].right(&input, seen.reference_before)
            },
            TimeDivergence::Responses { count } => {
                &&& in_order(input, seen, seen.sightings@.len() as int)
                &&& count == answers(seen.sightings@)
            },
            _ => false,
        }
    }
}

/// Whether both sides handled one system-time message alike, and as the
/// message asks: the same frames, the same clock left behind, and one response
/// per port where one is due, carrying the right timestamp.
pub fn check(input: &TimeInput, seen: &TimeSeen) -> (r: Result<(), TimeDivergence>)
    ensures
        r is Ok <==> {
            &&& seen.reference_before == seen.node_before
            &&& captures_view(seen.reference@) == captures_view(seen.node@)
            &&& seen.reference_after == seen.node_after
            &&& in_order(*input, *seen, seen.sightings@.len() as int)
            &&& answers(seen.sightings@) == (if input.answered() {
                NUM_PORTS as nat
            } else {
                0
            })
        },
        r matches Err(divergence) ==> handling_parts(*input, *seen, divergence),
{
    if seen.reference_before != seen.node_before {
        return Err(TimeDivergence::ClocksBefore);
    }
    match same_frames(seen.reference.as_slice(), seen.node.as_slice()) {
        Ok(()) => {},
        Err(divergence) => return Err(TimeDivergence::Frames(divergence)),
    }
    if seen.reference_after != seen.node_after {
        return Err(TimeDivergence::ClocksAfter);
    }
    let expected_us = match input.message {
        TimeMessage::Assign => input.utc_time_us,
        _ => seen.reference_before,
    };
    let mut count: usize = 0;
    let mut index: usize = 0;
    while index < seen.sightings.len()
        invariant
            index <= seen.sightings@.len(),
            expected_us == input.answer_us(seen.reference_before),
            count == answers(seen.sightings@.take(index as int)),
            count <= index,
            seen.reference_before == seen.node_before,
            captures_view(seen.reference@) == captures_view(seen.node@),
            seen.reference_after == seen.node_after,
            in_order(*input, *seen, index as int),
        decreases seen.sightings@.len() - index,
    {
        let sighting = seen.sightings[index];
        proof {
            assert(seen.sightings@.take(index + 1).drop_last() =~= seen.sightings@.take(
                index as int,
            ));
        }
        if sighting.message_type == MessageType::SystemTimeResponse {
            match sighting.response {
                None => return Err(TimeDivergence::Garbled { index }),
                Some((header, utc_time_us)) => {
                    if header.source_node_id == NODE_ID {
                        if header.target_node_id != PEER_NODE_ID || utc_time_us != expected_us
                            || !sighting.encodes_back {
                            return Err(TimeDivergence::Response { index });
                        }
                        count = count + 1;
                    }
                },
            }
        }
        index = index + 1;
    }
    assert(seen.sightings@.take(index as int) =~= seen.sightings@);
    let due: usize = if input.expects_response() {
        NUM_PORTS as usize
    } else {
        0
    };
    if count != due {
        return Err(TimeDivergence::Responses { count });
    }
    Ok(())
}

/// Each target and each message is its own: everybody goes by zero, this node
/// and the other by their ids; a question goes out as a question, sixteen bytes
/// long, and what carries a time as what it is, eight bytes longer.
pub proof fn law_each_target_and_message_is_its_own(
    a: Target,
    b: Target,
    m: TimeMessage,
    n: TimeMessage,
    byte: u8,
)
    ensures
        a.id() == b.id() ==> a == b,
        a.id() == 0 <==> a is Everyone,
        a.id() == NODE_ID <==> a is ThisNode,
        a.id() == THIRD_NODE_ID <==> a is OtherNode,
        m.sent_as() == n.sent_as() ==> m == n,
        m is Request <==> m.sent_as() is SystemTimeRequest,
        m is Response <==> m.sent_as() is SystemTimeResponse,
        m is Assign <==> m.sent_as() is SystemTimeSet,
        m.length() == 16 + if m is Request { 0nat } else { 8nat },
        Target::selected(0) is Everyone && Target::selected(1) is ThisNode && Target::selected(2)
            is OtherNode,
        TimeMessage::selected(0) is Request && TimeMessage::selected(1) is Response
            && TimeMessage::selected(2) is Assign,
        byte <= 252 ==> Target::selected((byte + 3) as u8) == Target::selected(byte)
            && TimeMessage::selected((byte + 3) as u8) == TimeMessage::selected(byte),
{
}

/// A message is owed an answer exactly if this node acts on it: a question that
/// names it, or an instruction that names it or everybody. What is answered to
/// an instruction is the time it carried, and to a question the time it was.
pub proof fn law_what_this_node_acts_on_is_answered(input: TimeInput, before: u64)
    ensures
        input.answered() <==> match input.message.sent_as() {
            MessageType::SystemTimeRequest => input.target.id() == NODE_ID,
            MessageType::SystemTimeSet => input.target.id() == NODE_ID || input.target.id() == 0,
            _ => false,
        },
        input.message.sent_as() is SystemTimeSet ==> input.answer_us(before) == input.utc_time_us,
        input.message.sent_as() is SystemTimeRequest ==> input.answer_us(before) == before,
        input.global_multicast ==> input.addressed()@ == GLOBAL_MULTICAST@,
        !input.global_multicast ==> input.addressed()@ == LINK_LOCAL_MULTICAST@,
        input.trailing@.len() <= 64 ==> input.carried_trailing() =~= input.trailing@,
        input.trailing@.len() > 64 ==> input.carried_trailing() =~= input.trailing@.take(64),
{
}

/// An input is drawn field by field from the bytes that were written for it.
pub proof fn law_a_written_input_is_drawn_back(
    input: TimeInput,
    message: u8,
    target: u8,
    port: u8,
    global: u8,
    clock_us: u64,
    utc_us: u64,
    trailing: Seq<u8>,
    more: Seq<u8>,
)
    requires
        trailing.len() <= 64,
        1 <= port <= 2,
        clock_us < MAX_UTC_US,
        utc_us < MAX_UTC_US,
        input.drawn_from(
            seq![message, target, trailing.len() as u8, port, global] + (le_bytes(
                clock_us as nat,
                8,
            ) + (le_bytes(utc_us as nat, 8) + (trailing + more))),
        ),
    ensures
        input.message == TimeMessage::selected(message),
        input.target == Target::selected(target),
        input.ingress_port == port,
        input.global_multicast == (global % 2 == 1),
        input.clock_us == clock_us,
        input.utc_time_us == utc_us,
        input.trailing@ =~= trailing,
{
    broadcast use crate::bytes::lemma_le_bytes_len;

    let front = seq![message, target, trailing.len() as u8, port, global];
    let s3 = trailing + more;
    let s2 = le_bytes(utc_us as nat, 8) + s3;
    let s1 = le_bytes(clock_us as nat, 8) + s2;
    let s = front + s1;
    law_le_bytes_fit(clock_us as nat);
    law_le_bytes_fit(utc_us as nat);
    law_what_is_written_first_is_drawn_first(front, s1, 0);
    law_what_is_written_first_is_drawn_first(le_bytes(clock_us as nat, 8), s2, 0);
    law_what_is_written_first_is_drawn_first(le_bytes(utc_us as nat, 8), s3, 0);
    assert(padded(s, 5) =~= front);
    assert(padded(s, 3)[2] == trailing.len());
    assert(rest(s, 13) =~= rest(rest(s, 5), 8));
    assert(rest(s, 21) =~= rest(rest(s, 13), 8));
    vstd::arithmetic::div_mod::lemma_small_mod(clock_us as nat, MAX_UTC_US as nat);
    vstd::arithmetic::div_mod::lemma_small_mod(utc_us as nat, MAX_UTC_US as nat);
    crate::diff::domain::law_a_port_is_folded_into_its_range(port, 2);
}

/// A captured frame is whole if it is as long as its length says, and the
/// length leaves room for the header; its message is then that many bytes from
/// where the header starts. It is stamped if its sender left an egress port.
pub proof fn law_a_whole_frame_holds_its_message(captured: Seq<u8>, payload: nat)
    requires
        captured.len() >= 54,
        payload == captured[18] as nat * 256 + captured[19] as nat,
    ensures
        whole(captured) <==> payload >= 13 && captured.len() >= 54 + payload,
        whole(captured) ==> region(captured) =~= captured.subrange(54, 54 + payload as int),
        stamped(captured) <==> captured[24] % 16 != 0,
{
    reveal_with_fuel(be, 3);
    let length = captured.subrange(18, 20);
    assert(length.drop_last().drop_last() =~= Seq::<u8>::empty());
    assert(length.drop_last().last() == captured[18]);
    let nibble = captured[24];
    assert(nibble & 0x0F == nibble % 16) by (bit_vector);
}

/// A response is this node's own if it can be read and is in this node's name,
/// and garbled if it cannot be read. It is right if it goes to the peer that
/// asked, carries the time that is owed and encodes back to itself.
pub proof fn law_a_right_response_answers_the_peer(
    sighting: Sighting,
    input: TimeInput,
    before: u64,
)
    ensures
        sighting.garbled() ==> sighting.message_type is SystemTimeResponse && !sighting.own(),
        sighting.own() ==> !sighting.garbled() && sighting.message_type is SystemTimeResponse
            && sighting.response is Some,
        sighting.message_type !is SystemTimeResponse ==> !sighting.own() && !sighting.garbled(),
        sighting.right(&input, before) <==> sighting.encodes_back && match sighting.response {
            Some((header, utc_us)) => header.target_node_id == PEER_NODE_ID && utc_us
                == input.answer_us(before),
            None => false,
        },
{
}

/// The answers seen are counted one by one.
pub proof fn law_every_answer_is_counted(seen: Seq<Sighting>, one: Sighting)
    ensures
        answers(seen.push(one)) == answers(seen) + match one.response {
            Some((header, _)) => if one.message_type is SystemTimeResponse
                && header.source_node_id == NODE_ID {
                1nat
            } else {
                0nat
            },
            None => 0nat,
        },
        answers(Seq::empty()) == 0,
        answers(seen) <= seen.len(),
    decreases seen.len(),
{
    assert(seen.push(one).drop_last() =~= seen);
    if seen.len() > 0 {
        law_every_answer_is_counted(seen.drop_last(), seen.last());
        assert(seen.drop_last().push(seen.last()) =~= seen);
    }
}

/// What is faulted is really wrong: the clocks before or after, the frames, a
/// response that cannot be read, one that is wrong, or how many there are.
pub proof fn law_a_handling_is_faulted_for_what_is_wrong(
    input: TimeInput,
    seen: TimeSeen,
    divergence: TimeDivergence,
)
    requires
        handling_parts(input, seen, divergence),
    ensures
        match divergence {
            TimeDivergence::ClocksBefore => seen.reference_before != seen.node_before,
            TimeDivergence::Frames(_) => captures_view(seen.reference@) != captures_view(
                seen.node@,
            ),
            TimeDivergence::ClocksAfter => seen.reference_after != seen.node_after,
            TimeDivergence::Garbled { index } => index < seen.sightings@.len()
                && seen.sightings@[index as int].garbled() && forall|i: int|
                0 <= i < index ==> !(#[trigger] seen.sightings@[i]).garbled(),
            TimeDivergence::Response { index } => index < seen.sightings@.len()
                && seen.sightings@[index as int].own() && !seen.sightings@[index as int].right(
                &input,
                seen.reference_before,
            ) && forall|i: int|
                0 <= i < index && (#[trigger] seen.sightings@[i]).own()
                    ==> seen.sightings@[i].right(&input, seen.reference_before),
            TimeDivergence::Responses { count } => count == answers(seen.sightings@) && forall|i: int|
                0 <= i < seen.sightings@.len() ==> !(#[trigger] seen.sightings@[i]).garbled(),
        },
{
    if seen.reference_before == seen.node_before && divergence is Frames {
        assert(captures_view(seen.reference@) != captures_view(seen.node@));
    }
}

/// What an input may be: arriving on one of two ports, with times whose
/// seconds fit thirty-two bits, at most 64 trailing bytes and at most 512 to
/// decode.
pub proof fn law_the_domain_is_what_the_reference_takes(input: TimeInput)
    ensures
        input.in_domain() <==> {
            &&& input.ingress_port == 1 || input.ingress_port == 2
            &&& input.clock_us < 4_294_967_296_000_000
            &&& input.utc_time_us < 4_294_967_296_000_000
            &&& input.trailing@.len() <= 64
            &&& input.decode_probe@.len() <= 512
        },
{
}

} // verus!
