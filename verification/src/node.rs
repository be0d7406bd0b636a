//! The node: what to say, when to say it, and what to do with what arrives.
//!
//! A node's work comes as an [`Exchange`]: a frame that arrived, a tick of the
//! heartbeat timer, or a message to send. An exchange alternates between a
//! question the node has for the tables and codecs around it ([`Ask`]) and the
//! answer ([`Answer`]), and ends with what the network is owed ([`Owing`]).
//! Every decision is here; whoever drives the exchange performs the calls and
//! reports what came back.
use vstd::prelude::*;

use crate::bytes::{copied, overlay, put};
use crate::frame::{
    write_frame_headers, Address, Addresses, BCMP_BODY_OFFSET, BCMP_HEADER_LEN,
    CHECKSUM_FIELD_OFFSET, IPV6_INGRESS_EGRESS_PORTS_OFFSET, IPV6_PAYLOAD_LENGTH_OFFSET,
    LEGACY_PORT_CLEAR_OFFSET,
    LINK_LOCAL_MULTICAST, MIN_FRAME_WITH_ADDRESSES, MTU,
};
use crate::links::{
    first_ports, in_mask, is_in_mask, port_mask, port_range, ports_in, with_link,
};
use crate::message::{
    DeviceInfo, DeviceInfoReply, EchoReply, EchoRequest, Heartbeat, InfoRequestKind, MessageType,
    NeighborInfo, PendingRequest, PortInfo, SystemTimeHeader,
};
use crate::port::{Egress, Identity, RtcTimeAndDate};
use vstd::slice::slice_subrange;

verus! {

/// Longest string a device-info reply carries: its length is one byte.
pub const MAX_STRING_LEN: usize = 255;

/// Longest ping payload: its length is a sixteen-bit field.
pub const MAX_PING_PAYLOAD_LEN: usize = 0xFFFF;

/// Most ports a neighbour-table reply will describe.
pub const MAX_REPORTED_PORTS: usize = 16;

/// Default number of unanswered device-info requests a node remembers.
pub const INFO_REQUESTS_DEFAULT: usize = 8;

/// Default size of a node's expected ping payload.
pub const PING_PAYLOAD_BYTES: usize = 64;

/// How many message types a node's registry holds.
pub const MESSAGE_TYPES: usize = 32;

/// The types a node registers when it starts, all of them unsequenced: every
/// one it processes or sends of its own accord.
pub const OWN_TYPES: [MessageType; 10] = [
    MessageType::Heartbeat,
    MessageType::EchoRequest,
    MessageType::EchoReply,
    MessageType::SystemTimeRequest,
    MessageType::SystemTimeResponse,
    MessageType::SystemTimeSet,
    MessageType::NeighborTableRequest,
    MessageType::NeighborTableReply,
    MessageType::DeviceInfoRequest,
    MessageType::DeviceInfoReply,
];

/// What a received message, or a request that gave up waiting, tells the
/// application.
#[allow(inconsistent_fields)]
#[derive(Debug, Clone, Copy, PartialEq, Eq)]
#[non_exhaustive]
pub enum Event<'a> {
    /// A reply answered an outstanding request, which is no longer
    /// outstanding. The request was found by its number alone, so
    /// `request.message_type` need not go with `message_type`.
    Reply {
        /// The request this answered, as it was recorded when it was sent.
        request: PendingRequest,
        /// The type of the reply.
        message_type: MessageType,
        /// Node id the reply came from.
        source: u64,
        /// The reply's body, after the BCMP header.
        payload: &'a [u8],
    },
    /// The expiry sweep gave up on a request.
    Timeout {
        /// The request that went unanswered.
        request: PendingRequest,
    },
    /// The message was handed to its type's own processor.
    Message {
        /// The message type, which is registered.
        message_type: MessageType,
        /// The sequence number in the header, zero for anything unsequenced.
        seq_num: u32,
        /// Node id the message came from.
        source: u64,
        /// The body, after the BCMP header.
        payload: &'a [u8],
    },
    /// An echo reply answered the outstanding ping. Reported in addition to
    /// [`Event::Message`] for the same frame.
    EchoReply {
        /// Node id the reply came from, from the frame's source address.
        source: u64,
        /// The reply as it arrived, payload included.
        reply: EchoReply<'a>,
        /// Milliseconds since the ping was built, wrapping.
        round_trip_ms: u32,
    },
    /// A device-info reply answered a request made with
    /// [`InfoRequestKind::Report`]. Reported in addition to
    /// [`Event::Message`] for the same frame.
    DeviceInfo {
        /// Node id the reply came from, from the frame's source address.
        source: u64,
        /// The reply as it arrived.
        reply: DeviceInfoReply<'a>,
    },
}

/// A frame the node wants transmitted, and the ports it goes out on.
///
/// Mutable because stamping the egress port rewrites it, once per port.
pub struct Outbound<'a> {
    frame: &'a mut [u8],
    mask: u16,
}

impl<'a> Outbound<'a> {
    /// The frame's bytes.
    pub closed spec fn bytes(&self) -> Seq<u8> {
        self.frame@
    }

    /// The ports it goes out on.
    pub closed spec fn ports(&self) -> u16 {
        self.mask
    }

    /// `frame`, to go out on the ports in `mask`.
    pub fn new(frame: &'a mut [u8], mask: u16) -> (r: Self)
        ensures
            r.bytes() == old(frame)@,
            r.ports() == mask,
    {
        Outbound { frame, mask }
    }

    /// The frame as it stands, before any egress port is stamped into it.
    #[must_use]
    pub fn frame(&self) -> (r: &[u8])
        ensures
            r@ == self.bytes(),
    {
        self.frame
    }

    /// The frame, to stamp an egress port into.
    pub fn frame_mut(&mut self) -> (r: &mut [u8])
        ensures
            r@ == old(self).bytes(),
            final(self).bytes() == final(r)@,
            final(self).ports() == old(self).ports(),
    {
        &mut *self.frame
    }

    /// Ports to transmit on, bit 0 for port 1.
    #[must_use]
    pub fn mask(&self) -> (r: u16)
        ensures
            r == self.ports(),
    {
        self.mask
    }
}

/// What a received frame obliges the node to put back on the network, in the
/// order of [`Owed::in_order`].
pub struct Owed<'f, 'n> {
    /// The received frame, prepared as a forwarded copy, and the ports it is
    /// relayed to.
    pub relay: Option<Outbound<'f>>,
    /// A frame the node built in answer.
    pub reply: Option<Outbound<'n>>,
    /// A message to re-flood out every other port.
    pub forward: Option<Reflood>,
}

impl<'f, 'n> Owed<'f, 'n> {
    /// Whether there is nothing to transmit.
    #[must_use]
    pub fn is_empty(&self) -> (r: bool)
        ensures
            r <==> self.relay is None && self.reply is None && self.forward is None,
    {
        self.relay.is_none() && self.reply.is_none() && self.forward.is_none()
    }

    /// What there is to transmit, in transmit order.
    pub fn in_order(self) -> (r: Vec<Duty<Outbound<'f>, Outbound<'n>>>)
        ensures
            r@ == ordered(self.relay, self.reply, self.forward),
    {
        in_order(self.relay, self.reply, self.forward)
    }
}

/// One thing to put on the network.
#[derive(Debug, Clone, Copy, PartialEq, Eq)]
pub enum Duty<R, M> {
    /// The received frame goes on to other ports.
    Relay(R),
    /// A message of the node's own goes out.
    Reply(M),
    /// A received message is re-flooded.
    Reflood(Reflood),
}

impl<R, M> Duty<R, M> {
    /// Where its kind comes in transmit order.
    pub open spec fn rank(self) -> int {
        match self {
            Duty::Relay(_) => 0,
            Duty::Reply(_) => 1,
            Duty::Reflood(_) => 2,
        }
    }
}

/// What is owed, in transmit order: the relay goes out before the node's own
/// reply, and a re-flood once both are gone.
pub open spec fn ordered<R, M>(
    relay: Option<R>,
    reply: Option<M>,
    forward: Option<Reflood>,
) -> Seq<Duty<R, M>> {
    let relays = match relay {
        Some(relay) => seq![Duty::Relay(relay)],
        None => Seq::empty(),
    };
    let replies = match reply {
        Some(reply) => seq![Duty::Reply(reply)],
        None => Seq::empty(),
    };
    let refloods = match forward {
        Some(reflood) => seq![Duty::Reflood(reflood)],
        None => Seq::empty(),
    };
    relays + replies + refloods
}

/// What is owed, in transmit order.
fn in_order<R, M>(relay: Option<R>, reply: Option<M>, forward: Option<Reflood>) -> (r: Vec<
    Duty<R, M>,
>)
    ensures
        r@ == ordered(relay, reply, forward),
{
    let mut duties: Vec<Duty<R, M>> = Vec::new();
    if let Some(relay) = relay {
        duties.push(Duty::Relay(relay));
    }
    if let Some(reply) = reply {
        duties.push(Duty::Reply(reply));
    }
    if let Some(reflood) = forward {
        duties.push(Duty::Reflood(reflood));
    }
    assert(duties@ =~= ordered(relay, reply, forward));
    duties
}

/// A received message to re-flood, as a range within the frame it arrived in.
#[derive(Debug, Clone, Copy, PartialEq, Eq, Structural)]
pub struct Reflood {
    /// Offset of the first byte of the BCMP header within the received frame.
    pub start: usize,
    /// One past the last body byte.
    pub end: usize,
    /// The one port the message is not re-flooded to: the port the sender
    /// stamped, zero if it stamped none.
    pub ingress_port: u8,
}

impl Reflood {
    /// The part of `frame` to re-flood.
    pub open spec fn part_of(&self, frame: Seq<u8>) -> Seq<u8> {
        frame.subrange(self.start as int, self.end as int)
    }

    /// The bytes to re-flood, out of the frame they arrived in.
    #[must_use]
    pub fn bcmp<'f>(&self, frame: &'f [u8]) -> (r: &'f [u8])
        requires
            self.start <= self.end <= frame@.len(),
        ensures
            r@ == self.part_of(frame@),
    {
        slice_subrange(frame, self.start, self.end)
    }
}

/// The bytes validating a frame rewrites, saved so that it can still be
/// relayed as it arrived.
#[derive(Debug, Clone, Copy)]
pub struct Snapshot {
    ports: u8,
    legacy: [u8; 2],
    checksum: [u8; 2],
}

/// Where the checksum lies in a frame.
pub const CHECKSUM_OFFSET: usize = MIN_FRAME_WITH_ADDRESSES + CHECKSUM_FIELD_OFFSET;

/// Whether a frame's byte `i` is one that validating the frame rewrites.
pub open spec fn rewritten(i: int) -> bool {
    ||| i == IPV6_INGRESS_EGRESS_PORTS_OFFSET
    ||| i == LEGACY_PORT_CLEAR_OFFSET
    ||| i == LEGACY_PORT_CLEAR_OFFSET + 1
    ||| i == CHECKSUM_OFFSET
    ||| i == CHECKSUM_OFFSET + 1
}

impl Snapshot {
    /// Whether this holds what `frame` has in the rewritten bytes.
    pub closed spec fn of(&self, frame: Seq<u8>) -> bool {
        &&& self.ports == frame[IPV6_INGRESS_EGRESS_PORTS_OFFSET as int]
        &&& self.legacy@ =~= seq![
            frame[LEGACY_PORT_CLEAR_OFFSET as int],
            frame[LEGACY_PORT_CLEAR_OFFSET + 1],
        ]
        &&& self.checksum@ =~= seq![frame[CHECKSUM_OFFSET as int], frame[CHECKSUM_OFFSET + 1]]
    }

    /// The rewritten bytes of `frame`, or nothing for a frame too short to
    /// hold all five.
    pub fn take(frame: &[u8]) -> (r: Option<Self>)
        ensures
            r is Some <==> frame@.len() >= CHECKSUM_OFFSET + 2,
            r matches Some(snapshot) ==> snapshot.of(frame@),
    {
        if frame.len() < CHECKSUM_OFFSET + 2 {
            return None;
        }
        Some(
            Snapshot {
                ports: frame[IPV6_INGRESS_EGRESS_PORTS_OFFSET],
                legacy: [frame[LEGACY_PORT_CLEAR_OFFSET], frame[LEGACY_PORT_CLEAR_OFFSET + 1]],
                checksum: [frame[CHECKSUM_OFFSET], frame[CHECKSUM_OFFSET + 1]],
            },
        )
    }

    /// Put the five bytes back, and leave every other one alone.
    pub fn restore(self, frame: &mut [u8])
        requires
            old(frame)@.len() >= CHECKSUM_OFFSET + 2,
        ensures
            final(frame)@.len() == old(frame)@.len(),
            self.of(final(frame)@),
            forall|i: int|
                0 <= i < old(frame)@.len() && !rewritten(i) ==> #[trigger] final(frame)@[i] == old(
                    frame,
                )@[i],
    {
        frame[IPV6_INGRESS_EGRESS_PORTS_OFFSET] = self.ports;
        frame[LEGACY_PORT_CLEAR_OFFSET] = self.legacy[0];
        frame[LEGACY_PORT_CLEAR_OFFSET + 1] = self.legacy[1];
        frame[CHECKSUM_OFFSET] = self.checksum[0];
        frame[CHECKSUM_OFFSET + 1] = self.checksum[1];
    }
}

/// Validating a frame does not show in its relay: a snapshot of the frame as
/// it arrived, restored after any rewriting of those five bytes, gives the
/// frame back as it arrived.
pub proof fn law_a_relay_is_the_frame_as_it_arrived(
    snapshot: Snapshot,
    arrived: Seq<u8>,
    validated: Seq<u8>,
    restored: Seq<u8>,
)
    requires
        snapshot.of(arrived),
        arrived.len() >= CHECKSUM_OFFSET + 2,
        validated.len() == arrived.len(),
        forall|i: int|
            0 <= i < arrived.len() && !rewritten(i) ==> #[trigger] validated[i] == arrived[i],
        restored.len() == validated.len(),
        snapshot.of(restored),
        forall|i: int|
            0 <= i < validated.len() && !rewritten(i) ==> #[trigger] restored[i] == validated[i],
    ensures
        restored == arrived,
{
    assert(snapshot.legacy@[0] == arrived[LEGACY_PORT_CLEAR_OFFSET as int]);
    assert(snapshot.legacy@[1] == arrived[LEGACY_PORT_CLEAR_OFFSET + 1]);
    assert(snapshot.checksum@[0] == arrived[CHECKSUM_OFFSET as int]);
    assert(snapshot.checksum@[1] == arrived[CHECKSUM_OFFSET + 1]);
    assert(snapshot.legacy@[0] == restored[LEGACY_PORT_CLEAR_OFFSET as int]);
    assert(snapshot.legacy@[1] == restored[LEGACY_PORT_CLEAR_OFFSET + 1]);
    assert(snapshot.checksum@[0] == restored[CHECKSUM_OFFSET as int]);
    assert(snapshot.checksum@[1] == restored[CHECKSUM_OFFSET + 1]);
    assert forall|i: int| 0 <= i < arrived.len() implies restored[i] == arrived[i] by {
        if !rewritten(i) {
            assert(validated[i] == arrived[i]);
        }
    }
    assert(restored =~= arrived);
}

/// What the routing policy decided about a frame.
#[derive(Debug, Clone, Copy, PartialEq, Eq, Structural)]
pub struct Routing {
    /// Whether the frame also goes up this node's own stack.
    pub should_submit: bool,
    /// The ports it is relayed to.
    pub egress_mask: u16,
}

/// A frame that validated as BCMP.
#[derive(Debug, Clone, Copy, PartialEq, Eq)]
pub struct Received<'a> {
    /// The type in its header.
    pub message_type: MessageType,
    /// The sequence number in its header.
    pub seq_num: u32,
    /// The node id in its source address.
    pub source: u64,
    /// Its destination address, which is also where an answer goes.
    pub destination: Address,
    /// Its body.
    pub payload: &'a [u8],
    /// The ingress port its sender stamped into the source address.
    pub ingress_port: u8,
}

/// What a message body turned out to hold.
#[derive(Debug, Clone, Copy, PartialEq, Eq)]
pub enum Decoded<'a> {
    /// A heartbeat.
    Heartbeat(Heartbeat),
    /// A device-info or neighbour-table request, by the node it names.
    Target(u64),
    /// A device describing itself.
    DeviceInfo(DeviceInfoReply<'a>),
    /// A ping.
    EchoRequest(EchoRequest<'a>),
    /// A ping's answer.
    EchoReply(EchoReply<'a>),
    /// Any of the three system-time messages.
    SystemTime {
        /// What it starts with.
        header: SystemTimeHeader,
        /// The timestamp after that, if the body is long enough to hold one.
        utc_time_us: Option<u64>,
    },
}

/// What the neighbour table made of a heartbeat.
#[derive(Debug, Clone, Copy, PartialEq, Eq, Structural)]
pub struct Heard {
    /// The neighbour that had to make room for the sender, if one did.
    pub evicted: Option<u64>,
    /// Whether the sender should be asked to describe itself.
    pub request_info: bool,
    /// Whether the sender has restarted since its last heartbeat.
    pub reset: bool,
}

/// A clock reading, and the whole seconds since the Unix epoch its calendar
/// fields stand for.
#[derive(Debug, Clone, Copy, PartialEq, Eq, Structural)]
pub struct ClockReading {
    /// The reading.
    pub reading: RtcTimeAndDate,
    /// The seconds.
    pub seconds: u32,
}

/// The body of a message the node wants sent.
#[derive(Debug, Clone, Copy, PartialEq, Eq)]
pub enum Body<'a> {
    /// Bytes as they are.
    Raw(&'a [u8]),
    /// A heartbeat of a node that has been up this long.
    Heartbeat {
        /// Milliseconds since the node started.
        uptime_ms: u32,
    },
    /// This node describing itself: [`Node::device_info_reply`].
    DeviceInfo,
    /// This node's neighbours: [`Node::neighbor_table_reply`].
    NeighborTable,
    /// A request that names a node and nothing else.
    Target(u64),
    /// A ping.
    EchoRequest(EchoRequest<'a>),
    /// A ping's answer.
    EchoReply(EchoReply<'a>),
    /// A question about the time.
    SystemTimeRequest(SystemTimeHeader),
    /// The time, or an instruction to adopt it.
    SystemTime {
        /// What it starts with.
        header: SystemTimeHeader,
        /// The timestamp.
        utc_time_us: u64,
    },
}

/// A message the node wants sent.
#[derive(Debug, Clone, Copy, PartialEq, Eq)]
pub struct Draft<'a> {
    /// Where it goes.
    pub destination: Address,
    /// Its type.
    pub message_type: MessageType,
    /// The number in its header.
    pub seq_num: u32,
    /// What it says.
    pub body: Body<'a>,
    /// The ports it goes out on, which are all the node has.
    pub mask: u16,
}

/// A question an exchange has for the tables and codecs around the node.
#[allow(inconsistent_fields)]
#[derive(Debug, Clone, Copy, PartialEq, Eq)]
pub enum Ask<'a> {
    /// Apply the routing policy to the frame, which arrived on this port.
    Route {
        /// The mask of the port the frame arrived on.
        ingress_mask: u16,
    },
    /// Validate the frame as BCMP.
    Accept,
    /// Look the message up in the packet registry.
    Lookup {
        /// Its type.
        message_type: MessageType,
        /// Its number.
        seq_num: u32,
    },
    /// Decode the message's body as its type has it.
    Decode {
        /// The type.
        message_type: MessageType,
    },
    /// Put a heartbeat to the neighbour table.
    Hear {
        /// The current time.
        now_ms: u32,
        /// Who sent it.
        source: u64,
        /// The port it arrived on.
        port: u8,
        /// The heartbeat.
        heartbeat: Heartbeat,
    },
    /// Drop what is known about a node.
    Forget {
        /// The node.
        node_id: u64,
    },
    /// Look up which node id the cached description of a node carries.
    Recall {
        /// The node.
        node_id: u64,
    },
    /// Record that a node has been asked to describe itself.
    Record {
        /// The node.
        node_id: u64,
        /// How its answer is to be used.
        kind: InfoRequestKind,
    },
    /// Find out whether a message type is registered.
    Registered {
        /// The type.
        message_type: MessageType,
    },
    /// Take the record of a device-info request out again.
    Take {
        /// The node it named.
        node_id: u64,
    },
    /// Find out whether a node is a neighbour.
    Find {
        /// The node.
        node_id: u64,
    },
    /// Keep a device's description.
    Store {
        /// The description.
        reply: DeviceInfoReply<'a>,
    },
    /// Find out whether an echo reply answers the outstanding ping.
    Match {
        /// The id this node pings with.
        our_id: u16,
        /// The reply.
        reply: EchoReply<'a>,
    },
    /// Read the clock.
    ReadClock,
    /// Set the clock.
    SetClock {
        /// Microseconds since the Unix epoch.
        utc_time_us: u64,
    },
    /// Ask the packet registry for the number a message goes out with.
    Sequence {
        /// The current time.
        now_ms: u32,
        /// The type.
        message_type: MessageType,
        /// The number to echo, for a type that echoes one.
        reply_seq_num: u32,
    },
    /// Age the neighbour table.
    Age {
        /// The current time.
        now_ms: u32,
    },
    /// Run the expiry sweep, reporting what it gives up on.
    Sweep {
        /// The current time.
        now_ms: u32,
    },
}

/// The answer to an [`Ask`].
#[derive(Debug, Clone, Copy, PartialEq, Eq)]
pub enum Answer<'a> {
    /// The routing policy's decision.
    Routed(Routing),
    /// The frame is not valid BCMP.
    Rejected,
    /// The frame is valid BCMP.
    Accepted(Received<'a>),
    /// Nothing registered the message's type.
    Unregistered,
    /// The message answers an outstanding request.
    SequencedReply(PendingRequest),
    /// The message is for its type's own processor.
    Process,
    /// The body does not hold what its type calls for.
    Malformed,
    /// What the body holds.
    Body(Decoded<'a>),
    /// What the neighbour table made of a heartbeat.
    Heard(Heard),
    /// It is done.
    Done,
    /// A node id, if there is one.
    NodeId(Option<u64>),
    /// How the answer to a device-info request is to be used, if there was
    /// such a request.
    Kind(Option<InfoRequestKind>),
    /// Yes or no.
    Flag(bool),
    /// What the clock reads, if it can be read.
    Clock(Option<ClockReading>),
    /// The number a message goes out with; none if its type is unregistered.
    SeqNum(Option<u32>),
}

/// How far an exchange has got.
#[derive(Debug, Clone, Copy, PartialEq, Eq)]
pub enum Stage<'a> {
    /// A frame arrived.
    Routing,
    /// It goes up the stack.
    Accepting,
    /// It is a message.
    Looking(Received<'a>),
    /// It is a message this node handles.
    Decoding(Received<'a>),
    /// It is a heartbeat.
    Hearing(u64, Heartbeat),
    /// The neighbour table evicted a node over it.
    Forgetting(u64, u64, Heard),
    /// The sender restarted.
    Recalling(u64),
    /// A node is to be asked to describe itself.
    Recording(u64, InfoRequestKind),
    /// The request may have been recorded.
    Checking(u64, bool),
    /// The request was recorded and cannot be sent.
    Withdrawing(u64),
    /// A device described itself.
    Matching(u64, DeviceInfoReply<'a>),
    /// Its description was asked for, to be kept.
    Finding(DeviceInfoReply<'a>),
    /// It is a neighbour's.
    Storing(DeviceInfoReply<'a>),
    /// A ping's answer arrived.
    Comparing(u64, EchoReply<'a>),
    /// A node asked for the time.
    Reading(u64),
    /// A node set the time.
    Setting(u64, u64),
    /// A message is to be sent.
    Sequencing {
        /// Where it goes.
        destination: Address,
        /// Its type.
        message_type: MessageType,
        /// The number to echo.
        reply_seq_num: u32,
        /// What it says.
        body: Body<'a>,
    },
    /// The heartbeat timer fired.
    Aging,
    /// The neighbour table has been aged.
    Sweeping,
}

/// A piece of the node's work, waiting for the answer to [`Node::ask`].
#[derive(Debug, Clone, Copy, PartialEq, Eq)]
pub struct Exchange<'a> {
    /// When it started.
    pub now_ms: u32,
    /// The port its frame arrived on, zero if there is none.
    pub ingress_port: u8,
    /// The ports its frame is relayed to.
    pub relay: u16,
    /// How far it has got.
    pub stage: Stage<'a>,
}

/// What a finished exchange owes the network, in the order of
/// [`Owing::in_order`].
#[derive(Debug, Clone, Copy, PartialEq, Eq)]
pub struct Owing<'a> {
    /// The ports the frame is relayed to, if it is relayed.
    pub relay: Option<u16>,
    /// A message to send.
    pub reply: Option<Draft<'a>>,
    /// A message to re-flood.
    pub forward: Option<Reflood>,
}

impl<'a> Owing<'a> {
    /// What there is to transmit, in transmit order.
    #[must_use]
    pub fn in_order(self) -> (r: Vec<Duty<u16, Draft<'a>>>)
        ensures
            r@ == ordered(self.relay, self.reply, self.forward),
    {
        in_order(self.relay, self.reply, self.forward)
    }
}

/// Where an exchange goes from here.
#[derive(Debug, Clone, Copy, PartialEq, Eq)]
pub enum Next<'a> {
    /// It has another question.
    Continue(Exchange<'a>),
    /// It is over.
    Finished(Owing<'a>),
}

/// What an answer led to.
#[derive(Debug, Clone, Copy, PartialEq, Eq)]
pub struct Progress<'a> {
    /// What the application is told.
    pub event: Option<Event<'a>>,
    /// Where the exchange goes from here.
    pub next: Next<'a>,
}

impl<'a> Exchange<'a> {
    /// The same exchange at another stage.
    pub open spec fn at(self, stage: Stage<'a>) -> Exchange<'a> {
        Exchange { stage, ..self }
    }

    /// The exchange going on to `stage`, with nothing to report.
    pub open spec fn goes_to(self, stage: Stage<'a>) -> Progress<'a> {
        Progress { event: None, next: Next::Continue(self.at(stage)) }
    }

    /// The exchange over, owing a relay if its frame has one, and `reply` and
    /// `forward`.
    pub open spec fn over(self, reply: Option<Draft<'a>>, forward: Option<Reflood>) -> Next<'a> {
        Next::Finished(
            Owing {
                relay: if self.relay != 0 { Some(self.relay) } else { None },
                reply,
                forward,
            },
        )
    }

    /// The exchange over, with nothing to report and nothing owed but a relay.
    pub open spec fn ends(self) -> Progress<'a> {
        Progress { event: None, next: self.over(None, None) }
    }

    /// The question the exchange waits for an answer to.
    pub open spec fn question(self, our_id: u64) -> Ask<'a> {
        match self.stage {
            Stage::Routing => Ask::Route {
                ingress_mask: if 1 <= self.ingress_port <= 16 {
                    1u16 << ((self.ingress_port - 1) as u16)
                } else {
                    0u16
                },
            },
            Stage::Accepting => Ask::Accept,
            Stage::Looking(received) => Ask::Lookup {
                message_type: received.message_type,
                seq_num: received.seq_num,
            },
            Stage::Decoding(received) => Ask::Decode { message_type: received.message_type },
            Stage::Hearing(source, heartbeat) => Ask::Hear {
                now_ms: self.now_ms,
                source,
                port: self.ingress_port,
                heartbeat,
            },
            Stage::Forgetting(_, evicted, _) => Ask::Forget { node_id: evicted },
            Stage::Recalling(source) => Ask::Recall { node_id: source },
            Stage::Recording(node_id, kind) => Ask::Record { node_id, kind },
            Stage::Checking(_, _) => Ask::Registered {
                message_type: MessageType::DeviceInfoRequest,
            },
            Stage::Withdrawing(node_id) => Ask::Take { node_id },
            Stage::Matching(_, reply) => Ask::Take { node_id: reply.info.node_id },
            Stage::Finding(reply) => Ask::Find { node_id: reply.info.node_id },
            Stage::Storing(reply) => Ask::Store { reply },
            Stage::Comparing(_, reply) => Ask::Match { our_id: our_id as u16, reply },
            Stage::Reading(_) => Ask::ReadClock,
            Stage::Setting(_, utc_time_us) => Ask::SetClock { utc_time_us },
            Stage::Sequencing { message_type, reply_seq_num, .. } => Ask::Sequence {
                now_ms: self.now_ms,
                message_type,
                reply_seq_num,
            },
            Stage::Aging => Ask::Age { now_ms: self.now_ms },
            Stage::Sweeping => Ask::Sweep { now_ms: self.now_ms },
        }
    }

    /// How many more questions an exchange can have, at most.
    pub open spec fn rank(self) -> nat {
        match self.stage {
            Stage::Routing => 10,
            Stage::Accepting => 9,
            Stage::Looking(_) => 8,
            Stage::Decoding(_) => 7,
            Stage::Hearing(_, _) => 6,
            Stage::Forgetting(_, _, _) => 5,
            Stage::Recalling(_) => 4,
            Stage::Recording(_, _) => 3,
            Stage::Checking(_, _) => 2,
            Stage::Withdrawing(_) => 1,
            Stage::Matching(_, _) => 3,
            Stage::Finding(_) => 2,
            Stage::Storing(_) => 1,
            Stage::Comparing(_, _) => 1,
            Stage::Reading(_) => 2,
            Stage::Setting(_, _) => 2,
            Stage::Sequencing { .. } => 1,
            Stage::Aging => 3,
            Stage::Sweeping => 2,
        }
    }
}

/// What a node remembers of the one ping it tracks: a second ping overwrites
/// what the first expected, and nothing else ever clears it.
pub struct PingState {
    /// The number the next ping carries, of which sixteen bits reach the wire.
    seq: u32,
    /// When the last ping was built.
    sent_at_ms: u32,
    /// The payload the last ping expects back, if it had one.
    expected: Option<Vec<u8>>,
}

impl PingState {
    /// The number the next ping carries.
    pub closed spec fn next_seq(&self) -> u32 {
        self.seq
    }

    /// When the last ping was built.
    pub closed spec fn sent_at(&self) -> u32 {
        self.sent_at_ms
    }

    /// The payload the last ping expects back, if it had one.
    pub closed spec fn expects(&self) -> Option<Seq<u8>> {
        match self.expected {
            Some(payload) => Some(payload@),
            None => None,
        }
    }

    /// No ping yet.
    pub fn new() -> (r: Self)
        ensures
            r.next_seq() == 0,
            r.sent_at() == 0,
            r.expects() is None,
    {
        PingState { seq: 0, sent_at_ms: 0, expected: None }
    }

    /// What an echo reply is compared against, if the last ping had a payload.
    pub fn expected_payload(&self) -> (r: Option<&[u8]>)
        ensures
            r is Some <==> self.expects() is Some,
            r matches Some(payload) ==> self.expects() == Some(payload@),
    {
        match &self.expected {
            Some(payload) => Some(payload.as_slice()),
            None => None,
        }
    }

    /// Expect `payload` back: the old expectation goes whether or not a new
    /// one replaces it, and an empty payload leaves none.
    pub fn remember(&mut self, payload: &[u8])
        ensures
            final(self).next_seq() == old(self).next_seq(),
            final(self).sent_at() == old(self).sent_at(),
            final(self).expects() == if payload@.len() > 0 {
                Some(payload@)
            } else {
                None
            },
    {
        self.expected = None;
        if payload.len() > 0 {
            self.expected = Some(copied(payload));
        }
    }
}

/// A Bristlemouth node.
///
/// `PING_PAYLOAD` is the longest ping payload the node can remember well
/// enough to check a reply against, and so the longest it will send.
pub struct Node<I, const PING_PAYLOAD: usize> {
    identity: I,
    ping: PingState,
    port_count: u8,
    /// Link state per port, bit 0 for port 1.
    link_mask: u16,
}

/// Whether a message naming `target` is for the node `our_id`: it names the
/// node, or everybody.
pub open spec fn addressed_to(target: u64, our_id: u64) -> bool {
    target == 0 || target == our_id
}

/// Whether the node itself does something with a message of this type.
pub open spec fn handled(message_type: MessageType) -> bool {
    ||| message_type == MessageType::Heartbeat
    ||| message_type == MessageType::DeviceInfoRequest
    ||| message_type == MessageType::DeviceInfoReply
    ||| message_type == MessageType::NeighborTableRequest
    ||| message_type == MessageType::EchoRequest
    ||| message_type == MessageType::EchoReply
    ||| system_time(message_type)
}

/// Whether this is one of the three system-time types.
pub open spec fn system_time(message_type: MessageType) -> bool {
    ||| message_type == MessageType::SystemTimeRequest
    ||| message_type == MessageType::SystemTimeResponse
    ||| message_type == MessageType::SystemTimeSet
}

/// One past the last byte of a message whose body has `len` bytes.
pub open spec fn body_end(len: nat) -> usize {
    if BCMP_BODY_OFFSET + len <= usize::MAX {
        (BCMP_BODY_OFFSET + len) as usize
    } else {
        usize::MAX
    }
}

impl<I: Identity, const PING_PAYLOAD: usize> Node<I, PING_PAYLOAD> {
    /// The node's id.
    pub closed spec fn id(&self) -> u64 {
        self.identity.id()
    }

    /// What the node says about itself.
    pub closed spec fn identifies(&self) -> I {
        self.identity
    }

    /// How many ports it has.
    pub closed spec fn ports(&self) -> u8 {
        self.port_count
    }

    /// Which links are up.
    pub closed spec fn links(&self) -> u16 {
        self.link_mask
    }

    /// The number its next ping carries.
    pub closed spec fn next_ping(&self) -> u32 {
        self.ping.next_seq()
    }

    /// When it last pinged.
    pub closed spec fn pinged_at(&self) -> u32 {
        self.ping.sent_at()
    }

    /// The payload its last ping expects back.
    pub closed spec fn expected_echo(&self) -> Option<Seq<u8>> {
        self.ping.expects()
    }

    /// What the node expects back is never empty, and never longer than it
    /// can remember.
    pub open spec fn well_formed(&self) -> bool {
        self.expected_echo() matches Some(payload) ==> 0 < payload.len() <= PING_PAYLOAD
    }

    /// Everything but the ping state is the same.
    pub open spec fn same_but_for_ping(&self, other: &Self) -> bool {
        &&& self.identifies() == other.identifies()
        &&& self.id() == other.id()
        &&& self.ports() == other.ports()
        &&& self.links() == other.links()
    }

    /// Where a heartbeat leads once the neighbour table has heard it: nowhere,
    /// unless the table wants the sender described. A sender that restarted is
    /// asked about under the node id its cached description carries; any other
    /// under its own.
    pub open spec fn after_heartbeat<'a>(e: Exchange<'a>, source: u64, heard: Heard) -> Progress<
        'a,
    > {
        if !heard.request_info {
            e.ends()
        } else if heard.reset {
            e.goes_to(Stage::Recalling(source))
        } else {
            e.goes_to(Stage::Recording(source, InfoRequestKind::Cache))
        }
    }

    /// Where a decoded system-time message leads. One for another node is
    /// passed on. A request has to name this node exactly; a set only has to
    /// be for this node or for everybody; a response is only reported.
    pub open spec fn after_system_time<'a>(
        &self,
        e: Exchange<'a>,
        received: Received<'a>,
        header: SystemTimeHeader,
        utc_time_us: Option<u64>,
    ) -> Progress<'a> {
        if !header.local_to(self.id()) {
            Progress {
                event: None,
                next: e.over(
                    None,
                    Some(
                        Reflood {
                            start: MIN_FRAME_WITH_ADDRESSES,
                            end: body_end(received.payload@.len()),
                            ingress_port: received.ingress_port,
                        },
                    ),
                ),
            }
        } else if received.message_type == MessageType::SystemTimeRequest {
            if header.target_node_id == self.id() {
                e.goes_to(Stage::Reading(header.source_node_id))
            } else {
                e.ends()
            }
        } else if received.message_type == MessageType::SystemTimeSet {
            match utc_time_us {
                Some(utc) => e.goes_to(Stage::Setting(header.source_node_id, utc)),
                None => e.ends(),
            }
        } else {
            e.ends()
        }
    }

    /// Where a decoded message leads. A request is answered to the address the
    /// message was sent to, and only if it is for this node.
    pub open spec fn after_decoding<'a>(
        &self,
        e: Exchange<'a>,
        received: Received<'a>,
        decoded: Decoded<'a>,
    ) -> Progress<'a> {
        match (received.message_type, decoded) {
            (MessageType::Heartbeat, Decoded::Heartbeat(heartbeat)) => e.goes_to(
                Stage::Hearing(received.source, heartbeat),
            ),
            (
                MessageType::DeviceInfoRequest,
                Decoded::Target(target),
            ) => if addressed_to(target, self.id()) {
                e.goes_to(
                    Stage::Sequencing {
                        destination: received.destination,
                        message_type: MessageType::DeviceInfoReply,
                        reply_seq_num: received.seq_num,
                        body: Body::DeviceInfo,
                    },
                )
            } else {
                e.ends()
            },
            (
                MessageType::NeighborTableRequest,
                Decoded::Target(target),
            ) => if addressed_to(target, self.id()) {
                e.goes_to(
                    Stage::Sequencing {
                        destination: received.destination,
                        message_type: MessageType::NeighborTableReply,
                        reply_seq_num: received.seq_num,
                        body: Body::NeighborTable,
                    },
                )
            } else {
                e.ends()
            },
            (MessageType::DeviceInfoReply, Decoded::DeviceInfo(reply)) => e.goes_to(
                Stage::Matching(received.source, reply),
            ),
            (MessageType::EchoRequest, Decoded::EchoRequest(request)) => if addressed_to(
                request.target_node_id,
                self.id(),
            ) {
                e.goes_to(
                    Stage::Sequencing {
                        destination: received.destination,
                        message_type: MessageType::EchoReply,
                        reply_seq_num: request.seq_num as u32,
                        body: Body::EchoReply(request.answered_by(self.id())),
                    },
                )
            } else {
                e.ends()
            },
            (MessageType::EchoReply, Decoded::EchoReply(reply)) => e.goes_to(
                Stage::Comparing(received.source, reply),
            ),
            (message_type, Decoded::SystemTime { header, utc_time_us }) => if system_time(
                message_type,
            ) {
                self.after_system_time(e, received, header, utc_time_us)
            } else {
                e.ends()
            },
            _ => e.ends(),
        }
    }

    /// A time response to `target`, waiting for its number.
    pub open spec fn time_response<'a>(&self, target: u64, utc_time_us: u64) -> Stage<'a> {
        Stage::Sequencing {
            destination: LINK_LOCAL_MULTICAST,
            message_type: MessageType::SystemTimeResponse,
            reply_seq_num: 0,
            body: Body::SystemTime {
                header: SystemTimeHeader { target_node_id: target, source_node_id: self.id() },
                utc_time_us,
            },
        }
    }

    /// Where an exchange goes with the answer to its question. An answer to
    /// some other question ends it.
    pub open spec fn after<'a>(&self, e: Exchange<'a>, answer: Answer<'a>) -> Progress<'a> {
        match (e.stage, answer) {
            (Stage::Routing, Answer::Routed(routing)) => {
                let routed = Exchange { relay: routing.egress_mask, ..e };
                if routing.should_submit {
                    routed.goes_to(Stage::Accepting)
                } else {
                    routed.ends()
                }
            },
            (Stage::Accepting, Answer::Accepted(received)) => e.goes_to(Stage::Looking(received)),
            (Stage::Looking(received), Answer::SequencedReply(request)) => Progress {
                event: Some(
                    Event::Reply {
                        request,
                        message_type: received.message_type,
                        source: received.source,
                        payload: received.payload,
                    },
                ),
                next: e.over(None, None),
            },
            (Stage::Looking(received), Answer::Process) => Progress {
                event: Some(
                    Event::Message {
                        message_type: received.message_type,
                        seq_num: received.seq_num,
                        source: received.source,
                        payload: received.payload,
                    },
                ),
                next: if handled(received.message_type) {
                    Next::Continue(e.at(Stage::Decoding(received)))
                } else {
                    e.over(None, None)
                },
            },
            (Stage::Decoding(received), Answer::Body(decoded)) => self.after_decoding(
                e,
                received,
                decoded,
            ),
            (Stage::Hearing(source, _), Answer::Heard(heard)) => match heard.evicted {
                Some(evicted) => e.goes_to(Stage::Forgetting(source, evicted, heard)),
                None => Self::after_heartbeat(e, source, heard),
            },
            (Stage::Forgetting(source, _, heard), Answer::Done) => Self::after_heartbeat(
                e,
                source,
                heard,
            ),
            (Stage::Recalling(_), Answer::NodeId(cached)) => e.goes_to(
                Stage::Recording(
                    match cached {
                        Some(node_id) => node_id,
                        None => 0,
                    },
                    InfoRequestKind::Cache,
                ),
            ),
            (Stage::Recording(node_id, _), Answer::Flag(recorded)) => e.goes_to(
                Stage::Checking(node_id, recorded),
            ),
            (Stage::Checking(node_id, recorded), Answer::Flag(registered)) => if registered {
                e.goes_to(
                    Stage::Sequencing {
                        destination: LINK_LOCAL_MULTICAST,
                        message_type: MessageType::DeviceInfoRequest,
                        reply_seq_num: 0,
                        body: Body::Target(node_id),
                    },
                )
            } else if recorded {
                e.goes_to(Stage::Withdrawing(node_id))
            } else {
                e.ends()
            },
            (Stage::Matching(source, reply), Answer::Kind(Some(InfoRequestKind::Report))) =>
                Progress {
                event: Some(Event::DeviceInfo { source, reply }),
                next: e.over(None, None),
            },
            (Stage::Matching(_, reply), Answer::Kind(Some(InfoRequestKind::Cache))) => e.goes_to(
                Stage::Finding(reply),
            ),
            (Stage::Finding(reply), Answer::Flag(true)) => e.goes_to(Stage::Storing(reply)),
            (Stage::Comparing(source, reply), Answer::Flag(true)) => Progress {
                event: Some(
                    Event::EchoReply {
                        source,
                        reply,
                        round_trip_ms: e.now_ms.wrapping_sub(self.pinged_at()),
                    },
                ),
                next: e.over(None, None),
            },
            (Stage::Reading(target), Answer::Clock(Some(clock))) => e.goes_to(
                self.time_response(target, clock.reading.utc_micros(clock.seconds) as u64),
            ),
            (Stage::Setting(target, utc_time_us), Answer::Flag(true)) => e.goes_to(
                self.time_response(target, utc_time_us),
            ),
            (
                Stage::Sequencing { destination, message_type, body, .. },
                Answer::SeqNum(Some(seq_num)),
            ) => Progress {
                event: None,
                next: e.over(
                    Some(
                        Draft {
                            destination,
                            message_type,
                            seq_num,
                            body,
                            mask: port_range(self.ports()),
                        },
                    ),
                    None,
                ),
            },
            (Stage::Aging, Answer::Done) => e.goes_to(Stage::Sweeping),
            (Stage::Sweeping, Answer::Done) => e.goes_to(
                Stage::Sequencing {
                    destination: LINK_LOCAL_MULTICAST,
                    message_type: MessageType::Heartbeat,
                    reply_seq_num: 0,
                    body: Body::Heartbeat { uptime_ms: e.now_ms },
                },
            ),
            _ => e.ends(),
        }
    }
}

impl<'a> Exchange<'a> {
    /// The same exchange, waiting for an answer at another stage.
    fn go(self, stage: Stage<'a>) -> (r: Progress<'a>)
        ensures
            r == self.goes_to(stage),
    {
        Progress {
            event: None,
            next: Next::Continue(
                Exchange {
                    now_ms: self.now_ms,
                    ingress_port: self.ingress_port,
                    relay: self.relay,
                    stage,
                },
            ),
        }
    }

    /// The exchange over, owing `reply` and `forward` and any relay.
    fn finish(self, reply: Option<Draft<'a>>, forward: Option<Reflood>) -> (r: Next<'a>)
        ensures
            r == self.over(reply, forward),
    {
        let relay = if self.relay != 0 {
            Some(self.relay)
        } else {
            None
        };
        Next::Finished(Owing { relay, reply, forward })
    }

    /// The exchange over, owing nothing but any relay.
    fn end(self) -> (r: Progress<'a>)
        ensures
            r == self.ends(),
    {
        Progress { event: None, next: self.finish(None, None) }
    }
}

/// Whether the node itself does something with a message of this type.
fn is_handled(message_type: MessageType) -> (r: bool)
    ensures
        r == handled(message_type),
{
    match message_type {
        MessageType::Heartbeat
        | MessageType::DeviceInfoRequest
        | MessageType::DeviceInfoReply
        | MessageType::NeighborTableRequest
        | MessageType::EchoRequest
        | MessageType::EchoReply
        | MessageType::SystemTimeRequest
        | MessageType::SystemTimeResponse
        | MessageType::SystemTimeSet => true,
        _ => false,
    }
}

impl<I: Identity, const PING_PAYLOAD: usize> Node<I, PING_PAYLOAD> {
    /// A node with every link down and no ping sent.
    pub fn new(identity: I, port_count: u8) -> (r: Self)
        ensures
            r.identifies() == identity,
            r.id() == identity.id(),
            r.ports() == port_count,
            r.links() == 0,
            r.next_ping() == 0,
            r.pinged_at() == 0,
            r.expected_echo() is None,
            r.well_formed(),
    {
        Node { identity, ping: PingState::new(), port_count, link_mask: 0 }
    }

    /// The question an exchange waits for an answer to.
    #[must_use]
    pub fn ask<'a>(&self, e: &Exchange<'a>) -> (r: Ask<'a>)
        ensures
            r == e.question(self.id()),
    {
        match e.stage {
            Stage::Routing => Ask::Route { ingress_mask: port_mask(e.ingress_port) },
            Stage::Accepting => Ask::Accept,
            Stage::Looking(received) => Ask::Lookup {
                message_type: received.message_type,
                seq_num: received.seq_num,
            },
            Stage::Decoding(received) => Ask::Decode { message_type: received.message_type },
            Stage::Hearing(source, heartbeat) => Ask::Hear {
                now_ms: e.now_ms,
                source,
                port: e.ingress_port,
                heartbeat,
            },
            Stage::Forgetting(_, evicted, _) => Ask::Forget { node_id: evicted },
            Stage::Recalling(source) => Ask::Recall { node_id: source },
            Stage::Recording(node_id, kind) => Ask::Record { node_id, kind },
            Stage::Checking(_, _) => Ask::Registered {
                message_type: MessageType::DeviceInfoRequest,
            },
            Stage::Withdrawing(node_id) => Ask::Take { node_id },
            Stage::Matching(_, reply) => Ask::Take { node_id: reply.info.node_id },
            Stage::Finding(reply) => Ask::Find { node_id: reply.info.node_id },
            Stage::Storing(reply) => Ask::Store { reply },
            Stage::Comparing(_, reply) => Ask::Match {
                our_id: self.identity.node_id() as u16,
                reply,
            },
            Stage::Reading(_) => Ask::ReadClock,
            Stage::Setting(_, utc_time_us) => Ask::SetClock { utc_time_us },
            Stage::Sequencing { message_type, reply_seq_num, .. } => Ask::Sequence {
                now_ms: e.now_ms,
                message_type,
                reply_seq_num,
            },
            Stage::Aging => Ask::Age { now_ms: e.now_ms },
            Stage::Sweeping => Ask::Sweep { now_ms: e.now_ms },
        }
    }

    /// A frame arrived on `ingress_port`.
    #[must_use]
    pub fn on_frame<'a>(&self, now_ms: u32, ingress_port: u8) -> (r: Exchange<'a>)
        ensures
            r == (Exchange { now_ms, ingress_port, relay: 0, stage: Stage::Routing }),
    {
        Exchange { now_ms, ingress_port, relay: 0, stage: Stage::Routing }
    }

    /// The heartbeat timer fired: age the neighbour table, sweep the
    /// outstanding requests, then emit a heartbeat.
    #[must_use]
    pub fn on_tick<'a>(&self, uptime_ms: u32) -> (r: Exchange<'a>)
        ensures
            r == (Exchange { now_ms: uptime_ms, ingress_port: 0, relay: 0, stage: Stage::Aging }),
    {
        Exchange { now_ms: uptime_ms, ingress_port: 0, relay: 0, stage: Stage::Aging }
    }

    /// Whether a message naming `target_node_id` is for this node.
    #[must_use]
    pub fn addressed_to_us(&self, target_node_id: u64) -> (r: bool)
        ensures
            r == addressed_to(target_node_id, self.id()),
    {
        target_node_id == 0 || target_node_id == self.identity.node_id()
    }

    /// Take an exchange on with the answer to its question: what a received
    /// message, or a timer, leads to.
    pub fn resume<'a>(&self, e: Exchange<'a>, answer: Answer<'a>) -> (r: Progress<'a>)
        ensures
            r == self.after(e, answer),
    {
        match e.stage {
            Stage::Routing => match answer {
                Answer::Routed(routing) => {
                    let routed = Exchange {
                        now_ms: e.now_ms,
                        ingress_port: e.ingress_port,
                        relay: routing.egress_mask,
                        stage: e.stage,
                    };
                    if routing.should_submit {
                        routed.go(Stage::Accepting)
                    } else {
                        routed.end()
                    }
                },
                _ => e.end(),
            },
            Stage::Accepting => match answer {
                Answer::Accepted(received) => e.go(Stage::Looking(received)),
                _ => e.end(),
            },
            Stage::Looking(received) => self.submit(e, received, answer),
            Stage::Decoding(received) => match answer {
                Answer::Body(decoded) => self.process(e, received, decoded),
                _ => e.end(),
            },
            Stage::Hearing(source, _) => match answer {
                Answer::Heard(heard) => match heard.evicted {
                    Some(evicted) => e.go(Stage::Forgetting(source, evicted, heard)),
                    None => Self::follow_up(e, source, heard),
                },
                _ => e.end(),
            },
            Stage::Forgetting(source, _, heard) => match answer {
                Answer::Done => Self::follow_up(e, source, heard),
                _ => e.end(),
            },
            Stage::Recalling(_) => match answer {
                Answer::NodeId(Some(node_id)) => e.go(
                    Stage::Recording(node_id, InfoRequestKind::Cache),
                ),
                Answer::NodeId(None) => e.go(Stage::Recording(0, InfoRequestKind::Cache)),
                _ => e.end(),
            },
            Stage::Recording(node_id, _) => match answer {
                Answer::Flag(recorded) => e.go(Stage::Checking(node_id, recorded)),
                _ => e.end(),
            },
            Stage::Checking(node_id, recorded) => match answer {
                Answer::Flag(true) => e.go(
                    Stage::Sequencing {
                        destination: LINK_LOCAL_MULTICAST,
                        message_type: MessageType::DeviceInfoRequest,
                        reply_seq_num: 0,
                        body: Body::Target(node_id),
                    },
                ),
                Answer::Flag(false) => if recorded {
                    e.go(Stage::Withdrawing(node_id))
                } else {
                    e.end()
                },
                _ => e.end(),
            },
            Stage::Matching(source, reply) => match answer {
                Answer::Kind(Some(InfoRequestKind::Report)) => Progress {
                    event: Some(Event::DeviceInfo { source, reply }),
                    next: e.finish(None, None),
                },
                Answer::Kind(Some(InfoRequestKind::Cache)) => e.go(Stage::Finding(reply)),
                _ => e.end(),
            },
            Stage::Finding(reply) => match answer {
                Answer::Flag(true) => e.go(Stage::Storing(reply)),
                _ => e.end(),
            },
            Stage::Withdrawing(_) | Stage::Storing(_) => e.end(),
            Stage::Comparing(source, reply) => match answer {
                Answer::Flag(true) => Progress {
                    event: Some(
                        Event::EchoReply {
                            source,
                            reply,
                            round_trip_ms: e.now_ms.wrapping_sub(self.ping.sent_at_ms),
                        },
                    ),
                    next: e.finish(None, None),
                },
                _ => e.end(),
            },
            Stage::Reading(target) => match answer {
                Answer::Clock(Some(clock)) => {
                    let utc_time_us = clock.reading.to_utc_micros(clock.seconds);
                    e.go(self.respond_with_time(target, utc_time_us))
                },
                _ => e.end(),
            },
            Stage::Setting(target, utc_time_us) => match answer {
                Answer::Flag(true) => e.go(self.respond_with_time(target, utc_time_us)),
                _ => e.end(),
            },
            Stage::Sequencing { destination, message_type, body, .. } => match answer {
                Answer::SeqNum(Some(seq_num)) => Progress {
                    event: None,
                    next: e.finish(
                        Some(
                            Draft {
                                destination,
                                message_type,
                                seq_num,
                                body,
                                mask: self.all_ports_mask(),
                            },
                        ),
                        None,
                    ),
                },
                _ => e.end(),
            },
            Stage::Aging => match answer {
                Answer::Done => e.go(Stage::Sweeping),
                _ => e.end(),
            },
            Stage::Sweeping => match answer {
                Answer::Done => e.go(
                    Stage::Sequencing {
                        destination: LINK_LOCAL_MULTICAST,
                        message_type: MessageType::Heartbeat,
                        reply_seq_num: 0,
                        body: Body::Heartbeat { uptime_ms: e.now_ms },
                    },
                ),
                _ => e.end(),
            },
        }
    }

    /// Dispatch a message the registry was asked about: an unregistered type
    /// is dropped, a reply that answers an outstanding request goes to the
    /// application instead of to the type's processor, and everything else is
    /// reported and processed.
    fn submit<'a>(&self, e: Exchange<'a>, received: Received<'a>, answer: Answer<'a>) -> (r:
        Progress<'a>)
        requires
            e.stage == Stage::Looking(received),
        ensures
            r == self.after(e, answer),
    {
        match answer {
            Answer::SequencedReply(request) => Progress {
                event: Some(
                    Event::Reply {
                        request,
                        message_type: received.message_type,
                        source: received.source,
                        payload: received.payload,
                    },
                ),
                next: e.finish(None, None),
            },
            Answer::Process => {
                let event = Event::Message {
                    message_type: received.message_type,
                    seq_num: received.seq_num,
                    source: received.source,
                    payload: received.payload,
                };
                let next = if is_handled(received.message_type) {
                    e.go(Stage::Decoding(received)).next
                } else {
                    e.finish(None, None)
                };
                Progress { event: Some(event), next }
            },
            _ => e.end(),
        }
    }

    /// Handle a decoded message.
    fn process<'a>(&self, e: Exchange<'a>, received: Received<'a>, decoded: Decoded<'a>) -> (r:
        Progress<'a>)
        ensures
            r == self.after_decoding(e, received, decoded),
    {
        match decoded {
            Decoded::Heartbeat(heartbeat) => match received.message_type {
                MessageType::Heartbeat => e.go(Stage::Hearing(received.source, heartbeat)),
                _ => e.end(),
            },
            Decoded::Target(target) => {
                if !self.addressed_to_us(target) {
                    return e.end();
                }
                match received.message_type {
                    MessageType::DeviceInfoRequest => e.go(
                        Stage::Sequencing {
                            destination: received.destination,
                            message_type: MessageType::DeviceInfoReply,
                            reply_seq_num: received.seq_num,
                            body: Body::DeviceInfo,
                        },
                    ),
                    MessageType::NeighborTableRequest => e.go(
                        Stage::Sequencing {
                            destination: received.destination,
                            message_type: MessageType::NeighborTableReply,
                            reply_seq_num: received.seq_num,
                            body: Body::NeighborTable,
                        },
                    ),
                    _ => e.end(),
                }
            },
            Decoded::DeviceInfo(reply) => match received.message_type {
                MessageType::DeviceInfoReply => e.go(Stage::Matching(received.source, reply)),
                _ => e.end(),
            },
            Decoded::EchoRequest(request) => match received.message_type {
                MessageType::EchoRequest => {
                    if !self.addressed_to_us(request.target_node_id) {
                        return e.end();
                    }
                    e.go(
                        Stage::Sequencing {
                            destination: received.destination,
                            message_type: MessageType::EchoReply,
                            reply_seq_num: request.seq_num as u32,
                            body: Body::EchoReply(request.into_reply(self.identity.node_id())),
                        },
                    )
                },
                _ => e.end(),
            },
            Decoded::EchoReply(reply) => match received.message_type {
                MessageType::EchoReply => e.go(Stage::Comparing(received.source, reply)),
                _ => e.end(),
            },
            Decoded::SystemTime { header, utc_time_us } => match received.message_type {
                MessageType::SystemTimeRequest
                | MessageType::SystemTimeResponse
                | MessageType::SystemTimeSet => self.process_system_time(
                    e,
                    received,
                    header,
                    utc_time_us,
                ),
                _ => e.end(),
            },
        }
    }

    /// Handle a decoded system-time message.
    fn process_system_time<'a>(
        &self,
        e: Exchange<'a>,
        received: Received<'a>,
        header: SystemTimeHeader,
        utc_time_us: Option<u64>,
    ) -> (r: Progress<'a>)
        ensures
            r == self.after_system_time(e, received, header, utc_time_us),
    {
        if !header.is_local(self.identity.node_id()) {
            let end = BCMP_BODY_OFFSET.saturating_add(received.payload.len());
            let reflood = Reflood {
                start: MIN_FRAME_WITH_ADDRESSES,
                end,
                ingress_port: received.ingress_port,
            };
            return Progress { event: None, next: e.finish(None, Some(reflood)) };
        }
        match received.message_type {
            MessageType::SystemTimeRequest => {
                if header.target_node_id == self.identity.node_id() {
                    e.go(Stage::Reading(header.source_node_id))
                } else {
                    e.end()
                }
            },
            MessageType::SystemTimeSet => match utc_time_us {
                Some(utc) => e.go(Stage::Setting(header.source_node_id, utc)),
                None => e.end(),
            },
            _ => e.end(),
        }
    }

    /// What a heartbeat leads to once the neighbour table has heard it.
    fn follow_up<'a>(e: Exchange<'a>, source: u64, heard: Heard) -> (r: Progress<'a>)
        ensures
            r == Self::after_heartbeat(e, source, heard),
    {
        if !heard.request_info {
            e.end()
        } else if heard.reset {
            e.go(Stage::Recalling(source))
        } else {
            e.go(Stage::Recording(source, InfoRequestKind::Cache))
        }
    }

    /// A time response to `target`, from this node.
    fn respond_with_time<'a>(&self, target: u64, utc_time_us: u64) -> (r: Stage<'a>)
        ensures
            r == self.time_response(target, utc_time_us),
    {
        Stage::Sequencing {
            destination: LINK_LOCAL_MULTICAST,
            message_type: MessageType::SystemTimeResponse,
            reply_seq_num: 0,
            body: Body::SystemTime {
                header: SystemTimeHeader {
                    target_node_id: target,
                    source_node_id: self.identity.node_id(),
                },
                utc_time_us,
            },
        }
    }
}

/// A message waiting for its number, from a node that has nothing to relay.
pub open spec fn sending<'a>(
    now_ms: u32,
    destination: Address,
    message_type: MessageType,
    reply_seq_num: u32,
    body: Body<'a>,
) -> Exchange<'a> {
    Exchange {
        now_ms,
        ingress_port: 0,
        relay: 0,
        stage: Stage::Sequencing { destination, message_type, reply_seq_num, body },
    }
}

impl<I: Identity, const PING_PAYLOAD: usize> Node<I, PING_PAYLOAD> {
    /// Send a BCMP message. `reply_seq_num` is the number being echoed; the
    /// packet registry decides whether it is used.
    ///
    /// Nothing, when the message does not fit the largest frame: that is
    /// settled before the registry is asked, so an oversized request never
    /// becomes an outstanding one.
    pub fn send<'a>(
        &self,
        now_ms: u32,
        dst: &Address,
        message_type: MessageType,
        body: &'a [u8],
        reply_seq_num: u32,
    ) -> (r: Option<Exchange<'a>>)
        ensures
            r is Some <==> BCMP_BODY_OFFSET + body@.len() <= MTU,
            r matches Some(e) ==> e == sending(
                now_ms,
                *dst,
                message_type,
                reply_seq_num,
                Body::Raw(body),
            ),
    {
        if body.len() > MTU - BCMP_BODY_OFFSET {
            return None;
        }
        Some(
            Exchange {
                now_ms,
                ingress_port: 0,
                relay: 0,
                stage: Stage::Sequencing {
                    destination: *dst,
                    message_type,
                    reply_seq_num,
                    body: Body::Raw(body),
                },
            },
        )
    }

    /// Send a message that is not answering one: [`Node::send`] with no
    /// sequence number to echo.
    pub fn request<'a>(
        &self,
        now_ms: u32,
        dst: &Address,
        message_type: MessageType,
        body: &'a [u8],
    ) -> (r: Option<Exchange<'a>>)
        ensures
            r is Some <==> BCMP_BODY_OFFSET + body@.len() <= MTU,
            r matches Some(e) ==> e == sending(now_ms, *dst, message_type, 0, Body::Raw(body)),
    {
        self.send(now_ms, dst, message_type, body, 0)
    }

    /// Ping `target_node_id`, or every node if it is zero.
    ///
    /// The request carries this node's id and the ping counter, each truncated
    /// to sixteen bits. `payload` replaces whatever the last ping expected
    /// back.
    ///
    /// Nothing, and the ping state undisturbed, when `payload` is longer than
    /// the node can remember or than the length field can say.
    pub fn ping<'a>(
        &mut self,
        now_ms: u32,
        dst: &Address,
        target_node_id: u64,
        payload: &'a [u8],
    ) -> (r: Option<Exchange<'a>>)
        ensures
            final(self).same_but_for_ping(&*old(self)),
            r is Some <==> payload@.len() <= PING_PAYLOAD && payload@.len()
                <= MAX_PING_PAYLOAD_LEN,
            r is None ==> final(self).next_ping() == old(self).next_ping()
                && final(self).pinged_at() == old(self).pinged_at()
                && final(self).expected_echo() == old(self).expected_echo(),
            r matches Some(e) ==> {
                &&& final(self).next_ping() == old(self).next_ping().wrapping_add(1)
                &&& final(self).pinged_at() == now_ms
                &&& final(self).expected_echo() == if payload@.len() > 0 {
                    Some(payload@)
                } else {
                    None
                }
                &&& e == sending(
                    now_ms,
                    *dst,
                    MessageType::EchoRequest,
                    0,
                    Body::EchoRequest(
                        EchoRequest {
                            target_node_id,
                            id: old(self).id() as u16,
                            seq_num: old(self).next_ping() as u16,
                            payload,
                        },
                    ),
                )
            },
            old(self).well_formed() ==> final(self).well_formed(),
    {
        if payload.len() > PING_PAYLOAD || payload.len() > MAX_PING_PAYLOAD_LEN {
            return None;
        }
        let seq_num: u16 = self.ping.seq as u16;
        self.ping.seq = self.ping.seq.wrapping_add(1);
        self.ping.remember(payload);
        self.ping.sent_at_ms = now_ms;
        let request = EchoRequest {
            target_node_id,
            id: self.identity.node_id() as u16,
            seq_num,
            payload,
        };
        Some(
            Exchange {
                now_ms,
                ingress_port: 0,
                relay: 0,
                stage: Stage::Sequencing {
                    destination: *dst,
                    message_type: MessageType::EchoRequest,
                    reply_seq_num: 0,
                    body: Body::EchoRequest(request),
                },
            },
        )
    }

    /// The number the next ping will carry, before truncation.
    #[must_use]
    pub fn ping_sequence(&self) -> (r: u32)
        ensures
            r == self.next_ping(),
    {
        self.ping.seq
    }

    /// What an echo reply is compared against. Nothing but another ping
    /// changes it.
    #[must_use]
    pub fn expected_ping_payload(&self) -> (r: Option<&[u8]>)
        ensures
            r is Some <==> self.expected_echo() is Some,
            r matches Some(payload) ==> self.expected_echo() == Some(payload@),
    {
        self.ping.expected_payload()
    }

    /// Ask `target_node_id` what time it is. Zero asks nobody: every node
    /// drops a broadcast question.
    #[must_use]
    pub fn request_system_time<'a>(&self, now_ms: u32, target_node_id: u64) -> (r: Exchange<'a>)
        ensures
            r == sending(
                now_ms,
                LINK_LOCAL_MULTICAST,
                MessageType::SystemTimeRequest,
                0,
                Body::SystemTimeRequest(
                    SystemTimeHeader { target_node_id, source_node_id: self.id() },
                ),
            ),
    {
        let header = SystemTimeHeader {
            target_node_id,
            source_node_id: self.identity.node_id(),
        };
        Exchange {
            now_ms,
            ingress_port: 0,
            relay: 0,
            stage: Stage::Sequencing {
                destination: LINK_LOCAL_MULTICAST,
                message_type: MessageType::SystemTimeRequest,
                reply_seq_num: 0,
                body: Body::SystemTimeRequest(header),
            },
        }
    }

    /// Tell `target_node_id` what time it is. Zero is a broadcast, which every
    /// node adopts and answers.
    #[must_use]
    pub fn set_system_time<'a>(
        &self,
        now_ms: u32,
        target_node_id: u64,
        utc_time_us: u64,
    ) -> (r: Exchange<'a>)
        ensures
            r == sending(
                now_ms,
                LINK_LOCAL_MULTICAST,
                MessageType::SystemTimeSet,
                0,
                Body::SystemTime {
                    header: SystemTimeHeader { target_node_id, source_node_id: self.id() },
                    utc_time_us,
                },
            ),
    {
        let header = SystemTimeHeader {
            target_node_id,
            source_node_id: self.identity.node_id(),
        };
        Exchange {
            now_ms,
            ingress_port: 0,
            relay: 0,
            stage: Stage::Sequencing {
                destination: LINK_LOCAL_MULTICAST,
                message_type: MessageType::SystemTimeSet,
                reply_seq_num: 0,
                body: Body::SystemTime { header, utc_time_us },
            },
        }
    }

    /// Ask `target_node_id` to describe itself, or every node if it is zero.
    /// The request is recorded first, and the record is withdrawn again if
    /// nothing could be sent.
    #[must_use]
    pub fn request_device_info<'a>(
        &self,
        now_ms: u32,
        target_node_id: u64,
        kind: InfoRequestKind,
    ) -> (r: Exchange<'a>)
        ensures
            r == (Exchange {
                now_ms,
                ingress_port: 0,
                relay: 0,
                stage: Stage::Recording(target_node_id, kind),
            }),
    {
        Exchange {
            now_ms,
            ingress_port: 0,
            relay: 0,
            stage: Stage::Recording(target_node_id, kind),
        }
    }

    /// Record that `port` came up or went down. Ports are 1-based; a port no
    /// device can have is ignored.
    pub fn set_link_up(&mut self, port: u8, up: bool)
        ensures
            forall|p: u8|
                #[trigger] in_mask(final(self).links(), p) == if p == port && 1 <= p <= 16 {
                    up
                } else {
                    in_mask(old(self).links(), p)
                },
            final(self).identifies() == old(self).identifies(),
            final(self).id() == old(self).id(),
            final(self).ports() == old(self).ports(),
            final(self).next_ping() == old(self).next_ping(),
            final(self).pinged_at() == old(self).pinged_at(),
            final(self).expected_echo() == old(self).expected_echo(),
    {
        self.link_mask = with_link(self.link_mask, port, up);
    }

    /// Whether `port` is up, as last recorded.
    #[must_use]
    pub fn link_up(&self, port: u8) -> (r: bool)
        ensures
            r == in_mask(self.links(), port),
    {
        is_in_mask(self.link_mask, port)
    }

    /// This node's identity.
    #[must_use]
    pub fn identity(&self) -> (r: &I)
        ensures
            *r == self.identifies(),
    {
        &self.identity
    }

    /// Mask of every port this node has, bit 0 for port 1.
    #[must_use]
    pub fn all_ports_mask(&self) -> (r: u16)
        ensures
            r == port_range(self.ports()),
            forall|p: u8| #[trigger] in_mask(r, p) <==> 1 <= p <= 16 && p <= self.ports(),
    {
        first_ports(self.port_count)
    }

    /// How many ports this node has. Ports are numbered 1..=`port_count`.
    #[must_use]
    pub fn port_count(&self) -> (r: u8)
        ensures
            r == self.ports(),
    {
        self.port_count
    }
}

/// At most the first `max` bytes of `s`.
pub open spec fn clipped(s: Seq<u8>, max: nat) -> Seq<u8> {
    if s.len() <= max {
        s
    } else {
        s.subrange(0, max as int)
    }
}

/// At most the first [`MAX_STRING_LEN`] bytes of a string.
fn clip(s: &[u8]) -> (r: &[u8])
    ensures
        r@ == clipped(s@, MAX_STRING_LEN as nat),
{
    if s.len() <= MAX_STRING_LEN {
        s
    } else {
        slice_subrange(s, 0, MAX_STRING_LEN)
    }
}

/// A neighbour, as a neighbour-table reply reports it.
#[derive(Debug, Clone, Copy, PartialEq, Eq, Structural)]
pub struct Neighbor {
    /// Its node id.
    pub node_id: u64,
    /// The port it was heard on.
    pub port: u8,
    /// Whether it is online.
    pub online: bool,
}

/// This node's ports and neighbours.
#[derive(Debug, PartialEq, Eq)]
pub struct NeighborTableReply {
    /// Whose they are.
    pub node_id: u64,
    /// One entry per port.
    pub ports: Vec<PortInfo>,
    /// One entry per neighbour.
    pub neighbors: Vec<NeighborInfo>,
}

impl Neighbor {
    /// The reply's entry for this neighbour.
    pub open spec fn reported(self) -> NeighborInfo {
        NeighborInfo {
            node_id: self.node_id,
            port: self.port,
            online: if self.online { 1u8 } else { 0u8 },
        }
    }
}

impl<I: Identity, const PING_PAYLOAD: usize> Node<I, PING_PAYLOAD> {
    /// What this node says about itself: its identity under its own node id,
    /// each string cut to what a one-byte length can say.
    #[must_use]
    pub fn device_info_reply(&self) -> (r: DeviceInfoReply<'_>)
        ensures
            r.info == (DeviceInfo { node_id: self.id(), ..self.identifies().info() }),
            r.version_string@ == clipped(self.identifies().version(), MAX_STRING_LEN as nat),
            r.device_name@ == clipped(self.identifies().name(), MAX_STRING_LEN as nat),
    {
        let mut info = self.identity.device_info();
        info.node_id = self.identity.node_id();
        DeviceInfoReply {
            info,
            version_string: clip(self.identity.version_string()),
            device_name: clip(self.identity.device_name()),
        }
    }

    /// What this node says about its surroundings: every port with the link
    /// state it has, and every neighbour.
    #[must_use]
    pub fn neighbor_table_reply(&self, neighbors: &[Neighbor]) -> (r: NeighborTableReply)
        ensures
            r.node_id == self.id(),
            r.ports@.len() == if self.ports() <= MAX_REPORTED_PORTS {
                self.ports() as nat
            } else {
                MAX_REPORTED_PORTS as nat
            },
            forall|i: int|
                0 <= i < r.ports@.len() ==> #[trigger] r.ports@[i] == (PortInfo {
                    state: if in_mask(self.links(), (i + 1) as u8) { 1u8 } else { 0u8 },
                    port_type: 0,
                }),
            r.neighbors@ == neighbors@.map_values(|n: Neighbor| n.reported()),
    {
        let mut count: u8 = self.port_count;
        if count > 16 {
            count = 16;
        }
        let mut ports: Vec<PortInfo> = Vec::new();
        let mut index: u8 = 0;
        while index < count
            invariant
                index <= count,
                count <= 16,
                ports@.len() == index,
                forall|i: int|
                    0 <= i < ports@.len() ==> #[trigger] ports@[i] == (PortInfo {
                        state: if in_mask(self.links(), (i + 1) as u8) { 1u8 } else { 0u8 },
                        port_type: 0,
                    }),
            decreases count - index,
        {
            let state: u8 = if is_in_mask(self.link_mask, index + 1) { 1 } else { 0 };
            ports.push(PortInfo { state, port_type: 0 });
            index = index + 1;
        }
        let mut table: Vec<NeighborInfo> = Vec::new();
        let mut at: usize = 0;
        while at < neighbors.len()
            invariant
                at <= neighbors@.len(),
                table@ =~= neighbors@.subrange(0, at as int).map_values(
                    |n: Neighbor| n.reported(),
                ),
            decreases neighbors@.len() - at,
        {
            let neighbor = neighbors[at];
            table.push(
                NeighborInfo {
                    node_id: neighbor.node_id,
                    port: neighbor.port,
                    online: if neighbor.online { 1 } else { 0 },
                },
            );
            at = at + 1;
        }
        assert(neighbors@.subrange(0, at as int) =~= neighbors@);
        NeighborTableReply { node_id: self.identity.node_id(), ports, neighbors: table }
    }
}

/// The payload length a frame's headers end up with: the one they are written
/// for, or the old one where that does not fit its sixteen bits.
pub open spec fn length_written(frame: Seq<u8>, payload_len: nat) -> Seq<u8> {
    if payload_len <= u16::MAX {
        crate::bytes::be_bytes(payload_len, 2)
    } else {
        frame.subrange(IPV6_PAYLOAD_LENGTH_OFFSET as int, IPV6_PAYLOAD_LENGTH_OFFSET + 2)
    }
}

/// Put a body into a frame and write the Ethernet and IPv6 headers around it.
/// The frame's length, or nothing if the body does not fit.
pub fn build_frame(tx: &mut [u8], addresses: &Addresses, body: &[u8]) -> (r: Option<usize>)
    ensures
        r is Some <==> BCMP_BODY_OFFSET + body@.len() <= old(tx)@.len() && BCMP_HEADER_LEN
            + body@.len() <= u16::MAX,
        r matches Some(end) ==> end == BCMP_BODY_OFFSET + body@.len(),
        BCMP_BODY_OFFSET + body@.len() > old(tx)@.len() ==> final(tx)@ == old(tx)@,
        BCMP_BODY_OFFSET + body@.len() <= old(tx)@.len() ==> final(tx)@ == overlay(
            overlay(old(tx)@, BCMP_BODY_OFFSET as int, body@),
            0,
            addresses.headers(length_written(old(tx)@, BCMP_HEADER_LEN as nat + body@.len())),
        ),
{
    if tx.len() < BCMP_BODY_OFFSET || body.len() > tx.len() - BCMP_BODY_OFFSET {
        return None;
    }
    put(tx, BCMP_BODY_OFFSET, body);
    proof {
        let before = old(tx)@;
        assert(tx@.subrange(
            IPV6_PAYLOAD_LENGTH_OFFSET as int,
            IPV6_PAYLOAD_LENGTH_OFFSET + 2,
        ) =~= before.subrange(
            IPV6_PAYLOAD_LENGTH_OFFSET as int,
            IPV6_PAYLOAD_LENGTH_OFFSET + 2,
        ));
    }
    match write_frame_headers(tx, addresses, BCMP_HEADER_LEN + body.len()) {
        Some(()) => Some(BCMP_BODY_OFFSET + body.len()),
        None => None,
    }
}

/// Write the headers of a frame that re-floods a received message, header and
/// all. The frame's length, or nothing if the message does not fit or is
/// shorter than a BCMP header.
pub fn forward_link_local(tx: &mut [u8], addresses: &Addresses, message: &[u8]) -> (r: Option<
    usize,
>)
    ensures
        r is Some <==> BCMP_HEADER_LEN <= message@.len() && MIN_FRAME_WITH_ADDRESSES + message@.len()
            <= old(tx)@.len() && message@.len() <= u16::MAX,
        r matches Some(end) ==> end == MIN_FRAME_WITH_ADDRESSES + message@.len(),
        message@.len() < BCMP_HEADER_LEN ==> final(tx)@ == old(tx)@,
        MIN_FRAME_WITH_ADDRESSES + message@.len() > old(tx)@.len() ==> final(tx)@ == old(tx)@,
        BCMP_HEADER_LEN <= message@.len() && MIN_FRAME_WITH_ADDRESSES + message@.len() <= old(
            tx,
        )@.len() ==> final(tx)@ == overlay(
            old(tx)@,
            0,
            addresses.headers(length_written(old(tx)@, message@.len())),
        ),
{
    if message.len() < BCMP_HEADER_LEN {
        return None;
    }
    if tx.len() < MIN_FRAME_WITH_ADDRESSES || message.len() > tx.len() - MIN_FRAME_WITH_ADDRESSES {
        return None;
    }
    match write_frame_headers(tx, addresses, message.len()) {
        Some(()) => Some(MIN_FRAME_WITH_ADDRESSES + message.len()),
        None => None,
    }
}

/// How L2 treats a frame on its way out.
#[derive(Debug, Clone, Copy, PartialEq, Eq, Structural)]
pub enum TxKind {
    /// Global multicast.
    GlobalMulticast,
    /// Link-local multicast.
    LinkLocalMulticast,
    /// Anything else.
    Dropped,
}

/// One transfer to the PHY.
#[derive(Debug, Clone, Copy, PartialEq, Eq, Structural)]
pub struct Transfer {
    /// Where the copy goes.
    pub egress: Egress,
    /// Whether the egress port is stamped into it.
    pub stamped: bool,
}

/// The transfers of a frame: global multicast goes out unstamped, to every
/// port at once when the mask covers every port and otherwise once per port;
/// link-local multicast goes out once per port, stamped; anything else does
/// not go out.
pub open spec fn transfers(kind: TxKind, mask: u16, port_count: u8, all_ports: u16) -> Seq<
    Transfer,
> {
    match kind {
        TxKind::GlobalMulticast => if mask == all_ports {
            seq![Transfer { egress: Egress::AllPorts, stamped: false }]
        } else {
            ports_in(mask, port_count as nat).map_values(
                |port: u8| Transfer { egress: Egress::Port(port), stamped: false },
            )
        },
        TxKind::LinkLocalMulticast => ports_in(mask, port_count as nat).map_values(
            |port: u8| Transfer { egress: Egress::Port(port), stamped: true },
        ),
        TxKind::Dropped => Seq::empty(),
    }
}

/// One transfer per port of `mask`.
fn per_port(mask: u16, port_count: u8, stamped: bool) -> (r: Vec<Transfer>)
    ensures
        r@ == ports_in(mask, port_count as nat).map_values(
            |port: u8| Transfer { egress: Egress::Port(port), stamped },
        ),
{
    let mut plan: Vec<Transfer> = Vec::new();
    let mut done: u8 = 0;
    while done < port_count
        invariant
            done <= port_count,
            plan@ =~= ports_in(mask, done as nat).map_values(
                |port: u8| Transfer { egress: Egress::Port(port), stamped },
            ),
        decreases port_count - done,
    {
        done = done + 1;
        if is_in_mask(mask, done) {
            plan.push(Transfer { egress: Egress::Port(done), stamped });
        }
    }
    plan
}

/// The transfers that put a frame on the network, in order. A transfer that
/// fails abandons the rest.
#[must_use]
pub fn transmit(kind: TxKind, mask: u16, port_count: u8, all_ports: u16) -> (r: Vec<Transfer>)
    ensures
        r@ == transfers(kind, mask, port_count, all_ports),
{
    match kind {
        TxKind::GlobalMulticast => {
            if mask == all_ports {
                let mut plan: Vec<Transfer> = Vec::new();
                plan.push(Transfer { egress: Egress::AllPorts, stamped: false });
                plan
            } else {
                per_port(mask, port_count, false)
            }
        },
        TxKind::LinkLocalMulticast => per_port(mask, port_count, true),
        TxKind::Dropped => Vec::new(),
    }
}

} // verus!
