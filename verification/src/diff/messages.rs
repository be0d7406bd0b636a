//! Comparing the replies a stack gives about itself: what it says of its
//! device, and the neighbour table it reports.
//!
//! The reference reads whatever a request announces, so the requests here are
//! whole; arbitrary bytes go to the decoders alone.
use vstd::prelude::*;

pub use crate::diff::ping::Target;

use crate::bytes::{first_difference, le_bytes, lemma_le_bytes_len, push_le, shorter};
use crate::diff::domain::{fold_port, folded_port, Domain};
use crate::diff::frames::{blank, blank_frame, Unsealed};
use crate::diff::ping::leaves_on;
use crate::diff::stack::{
    OracleIdentity, DEVICE_NAME, FIRMWARE_VERSION, GIT_SHA, HW_VERSION, NODE_ID, NUM_PORTS,
    PRODUCT_ID, SERIAL_NUMBER, VENDOR_ID, VERSION_STRING,
};
use crate::frame::{Address, BCMP_HEADER_LEN, GLOBAL_MULTICAST, LINK_LOCAL_MULTICAST};
use crate::fuzz::{
    draw_bool, draw_rest, draw_sized, draw_u8, padded, past_sized, rest, sized, source,
    unread,
};
use crate::message::{DeviceInfo, DeviceInfoReply, MessageType};
use crate::node::NeighborTableReply;
use crate::port::Identity;
use arbitrary::Unstructured;

verus! {

/// Node id the injected request appears to come from. Anything but the
/// reference's.
pub const PEER_NODE_ID: u64 = 0x0000_0000_55AA_0011;

/// Longest input for the decoders.
pub const MAX_PROBE: usize = 2048;

/// Which question to ask.
#[derive(Debug, Clone, Copy, PartialEq, Eq, Structural)]
pub enum Request {
    /// Who are you?
    DeviceInfo,
    /// Whom can you see?
    NeighborTable,
}

impl Request {
    /// The type the question is asked with.
    #[must_use]
    pub fn request_type(self) -> (r: MessageType)
        ensures
            r == match self {
                Request::DeviceInfo => MessageType::DeviceInfoRequest,
                Request::NeighborTable => MessageType::NeighborTableRequest,
            },
    {
        match self {
            Request::DeviceInfo => MessageType::DeviceInfoRequest,
            Request::NeighborTable => MessageType::NeighborTableRequest,
        }
    }

    /// The type it is answered with.
    #[must_use]
    pub fn reply_type(self) -> (r: MessageType)
        ensures
            r == match self {
                Request::DeviceInfo => MessageType::DeviceInfoReply,
                Request::NeighborTable => MessageType::NeighborTableReply,
            },
    {
        match self {
            Request::DeviceInfo => MessageType::DeviceInfoReply,
            Request::NeighborTable => MessageType::NeighborTableReply,
        }
    }
}

/// One request put to the reference, and bytes for the decoders alone.
#[derive(Debug)]
pub struct BcmpMessagesInput {
    /// Which question to ask.
    pub request: Request,
    /// Whom to ask it.
    pub target: Target,
    /// Port to inject on, 1..=[`NUM_PORTS`].
    pub ingress_port: u8,
    /// Address every node rather than the neighbours. The reply goes back to
    /// where the request went, so this decides whether it is stamped.
    pub global_multicast: bool,
    /// Bytes for the decoders, never put to the reference; at most
    /// [`MAX_PROBE`].
    pub decode_probe: Vec<u8>,
}

impl Domain for BcmpMessagesInput {
    open spec fn in_domain(&self) -> bool {
        &&& 1 <= self.ingress_port <= NUM_PORTS
        &&& self.decode_probe@.len() <= MAX_PROBE
    }

    fn clamp_to_domain(&mut self)
        ensures
            final(self).request == old(self).request,
            final(self).target == old(self).target,
            final(self).global_multicast == old(self).global_multicast,
            final(self).ingress_port == folded_port(old(self).ingress_port, NUM_PORTS),
            final(self).decode_probe@ == old(self).decode_probe@.take(
                shorter(old(self).decode_probe@.len(), MAX_PROBE as nat) as int,
            ),
    {
        self.ingress_port = fold_port(self.ingress_port, NUM_PORTS);
        self.decode_probe.truncate(MAX_PROBE);
    }
}

impl BcmpMessagesInput {
    /// Every field but the probe is drawn from `s` and folded into the domain.
    pub open spec fn drawn_from(&self, s: Seq<u8>) -> bool {
        &&& self.request == (if padded(s, 4)[0] % 2 == 1 {
            Request::DeviceInfo
        } else {
            Request::NeighborTable
        })
        &&& self.target == Target::selected(padded(s, 4)[1])
        &&& self.ingress_port == folded_port(padded(s, 4)[2], NUM_PORTS)
        &&& self.global_multicast == (padded(s, 4)[3] % 2 == 1)
    }

    /// Every field but the probe, before the port is folded.
    fn scalars(u: &mut Unstructured<'_>) -> (r: Self)
        ensures
            ({
                let s = unread(old(u));
                &&& unread(final(u)) == rest(s, 4)
                &&& r.request == (if padded(s, 4)[0] % 2 == 1 {
                    Request::DeviceInfo
                } else {
                    Request::NeighborTable
                })
                &&& r.target == Target::selected(padded(s, 4)[1])
                &&& r.ingress_port == padded(s, 4)[2]
                &&& r.global_multicast == (padded(s, 4)[3] % 2 == 1)
            }),
    {
        let ghost s = unread(u);
        let request = if draw_bool(u) {
            Request::DeviceInfo
        } else {
            Request::NeighborTable
        };
        let target = Target::select(draw_u8(u));
        let ingress_port = draw_u8(u);
        let global_multicast = draw_bool(u);
        assert(unread(u) =~= rest(s, 4));
        BcmpMessagesInput {
            request,
            target,
            ingress_port,
            global_multicast,
            decode_probe: Vec::new(),
        }
    }

    /// Draw an input, its probe by a length and then that many bytes.
    pub fn arbitrary(u: &mut Unstructured<'_>) -> (r: Self)
        ensures
            r.in_domain(),
            r.drawn_from(unread(old(u))),
            r.decode_probe@ == sized(rest(unread(old(u)), 4)).take(
                shorter(sized(rest(unread(old(u)), 4)).len(), MAX_PROBE as nat) as int,
            ),
            unread(final(u)) == past_sized(rest(unread(old(u)), 4)),
    {
        let mut input = Self::scalars(u);
        input.decode_probe = draw_sized(u);
        input.clamp_to_domain();
        input
    }

    /// Draw an input, its probe being everything that is left.
    pub fn arbitrary_take_rest(u: Unstructured<'_>) -> (r: Self)
        ensures
            r.in_domain(),
            r.drawn_from(unread(&u)),
            r.decode_probe@ == rest(unread(&u), 4).take(
                shorter(rest(unread(&u), 4).len(), MAX_PROBE as nat) as int,
            ),
    {
        let mut u = u;
        let mut input = Self::scalars(&mut u);
        input.decode_probe = draw_rest(u);
        input.clamp_to_domain();
        input
    }

    /// The input a seed file holds.
    pub fn from_seed(seed: &[u8]) -> (r: Self)
        ensures
            r.in_domain(),
            r.drawn_from(seed@),
            r.decode_probe@ == rest(seed@, 4).take(
                shorter(rest(seed@, 4).len(), MAX_PROBE as nat) as int,
            ),
    {
        Self::arbitrary_take_rest(source(seed))
    }

    /// The address the request goes to.
    pub open spec fn addressed(&self) -> Address {
        if self.global_multicast {
            GLOBAL_MULTICAST
        } else {
            LINK_LOCAL_MULTICAST
        }
    }

    /// The address the request goes to.
    #[must_use]
    pub fn destination(&self) -> (r: Address)
        ensures
            r == self.addressed(),
    {
        if self.global_multicast {
            GLOBAL_MULTICAST
        } else {
            LINK_LOCAL_MULTICAST
        }
    }
}

/// The length of a request's body: a node id.
pub const REQUEST_LEN: usize = 8;

/// A node id, as a request's body carries it.
pub open spec fn id_bytes(id: u64) -> Seq<u8> {
    le_bytes(id as nat, 8)
}

/// A node id, as a request's body carries it.
fn push_id(id: u64) -> (r: Vec<u8>)
    ensures
        r@ == id_bytes(id),
{
    broadcast use lemma_le_bytes_len;

    let mut body: Vec<u8> = Vec::new();
    push_le(&mut body, id, 8);
    assert(body@ =~= id_bytes(id));
    body
}

/// The request an input injects, before its header and checksum are written:
/// its body is the id of the node that is asked. `peer` is the link-local
/// address of [`PEER_NODE_ID`].
#[must_use]
pub fn build_request(input: &BcmpMessagesInput, peer: &Address, next_header: u8) -> (r: Unsealed)
    ensures
        r.frame@ == blank(
            peer@,
            input.addressed()@,
            next_header,
            21,
        ),
        r.message_type == match input.request {
            Request::DeviceInfo => MessageType::DeviceInfoRequest,
            Request::NeighborTable => MessageType::NeighborTableRequest,
        },
        r.body@ == id_bytes(input.target.id()),
{
    let body = push_id(input.target.node_id());
    let frame = blank_frame(
        peer,
        &input.destination(),
        next_header,
        BCMP_HEADER_LEN + REQUEST_LEN,
    );
    Unsealed { frame, message_type: input.request.request_type(), body }
}

/// What a reply decodes to.
#[derive(Debug)]
pub enum Decoded<'a> {
    /// Nothing: it does not decode.
    Garbled,
    /// A device describing itself.
    DeviceInfo(DeviceInfoReply<'a>),
    /// A neighbour table.
    NeighborTable(NeighborTableReply),
}

/// One reply of the reference.
#[derive(Debug)]
pub struct ReplySeen<'a> {
    /// Its body.
    pub body: Vec<u8>,
    /// What that decodes to.
    pub decoded: Decoded<'a>,
    /// What that encodes to again.
    pub again: Vec<u8>,
}

/// A device description that says what the reference was brought up with.
pub open spec fn describes_reference(reply: DeviceInfoReply<'_>) -> bool {
    &&& reply.info == (DeviceInfo { node_id: NODE_ID, ..OracleIdentity.info() })
    &&& reply.version_string@ == VERSION_STRING@
    &&& reply.device_name@ == DEVICE_NAME@
}

/// A neighbour table with every port up, of no particular type, and nobody on
/// any of them: nothing ever sends the reference a heartbeat.
pub open spec fn lists_nobody(reply: NeighborTableReply) -> bool {
    &&& reply.node_id == NODE_ID
    &&& reply.ports@.len() == NUM_PORTS
    &&& forall|i: int|
        0 <= i < reply.ports@.len() ==> (#[trigger] reply.ports@[i]).state != 0
            && reply.ports@[i].port_type == 0
    &&& reply.neighbors@.len() == 0
}

/// Whether a device description says what the reference was brought up with.
#[must_use]
pub fn check_device_info(reply: &DeviceInfoReply<'_>) -> (r: bool)
    ensures
        r <==> describes_reference(*reply),
{
    let expected = DeviceInfo {
        node_id: NODE_ID,
        vendor_id: VENDOR_ID,
        product_id: PRODUCT_ID,
        serial_num: SERIAL_NUMBER,
        git_sha: GIT_SHA,
        ver_major: FIRMWARE_VERSION.0,
        ver_minor: FIRMWARE_VERSION.1,
        ver_rev: FIRMWARE_VERSION.2,
        ver_hw: HW_VERSION,
    };
    reply.info.same(&expected) && first_difference(
        reply.version_string,
        &VERSION_STRING,
    ).is_none() && first_difference(reply.device_name, &DEVICE_NAME).is_none()
}

/// Whether a neighbour table has every port up and nobody on any of them.
#[must_use]
pub fn check_neighbor_table(reply: &NeighborTableReply) -> (r: bool)
    ensures
        r <==> lists_nobody(*reply),
{
    if reply.node_id != NODE_ID || reply.ports.len() != NUM_PORTS as usize
        || reply.neighbors.len() != 0 {
        return false;
    }
    let mut index: usize = 0;
    while index < reply.ports.len()
        invariant
            index <= reply.ports@.len(),
            forall|i: int|
                0 <= i < index ==> (#[trigger] reply.ports@[i]).state != 0
                    && reply.ports@[i].port_type == 0,
        decreases reply.ports@.len() - index,
    {
        if reply.ports[index].state == 0 || reply.ports[index].port_type != 0 {
            return false;
        }
        index = index + 1;
    }
    true
}

impl ReplySeen<'_> {
    /// Whether this is the reply the reference owes to `request`, and encodes
    /// back to itself.
    pub open spec fn right(self, request: Request) -> bool {
        &&& self.again@ == self.body@
        &&& match self.decoded {
            Decoded::Garbled => false,
            Decoded::DeviceInfo(reply) => request is DeviceInfo && describes_reference(reply),
            Decoded::NeighborTable(reply) => request is NeighborTable && lists_nobody(reply),
        }
    }

    /// Whether this is the reply the reference owes to `request`, and encodes
    /// back to itself.
    #[must_use]
    pub fn is_right(&self, request: Request) -> (r: bool)
        ensures
            r <==> self.right(request),
    {
        let expected = match &self.decoded {
            Decoded::Garbled => false,
            Decoded::DeviceInfo(reply) => request == Request::DeviceInfo && check_device_info(
                reply,
            ),
            Decoded::NeighborTable(reply) => request == Request::NeighborTable
                && check_neighbor_table(reply),
        };
        expected && first_difference(self.again.as_slice(), self.body.as_slice()).is_none()
    }
}

/// How the reference's answer is not the one it owes.
#[derive(Debug, Clone, Copy, PartialEq, Eq, Structural)]
pub enum MessagesDivergence {
    /// It answered a request for somebody else.
    Answered,
    /// There are too few or too many replies.
    Replies {
        /// How many there are.
        count: usize,
    },
    /// A reply does not say what it should, or does not encode back to itself.
    Reply {
        /// Which reply.
        index: usize,
    },
    /// A reply differs between the ports it left on.
    Torn {
        /// Which reply.
        index: usize,
    },
}

/// What the reference owes to a request: nothing when it is for somebody else,
/// and otherwise one right reply per port, or a single one when it goes to
/// every node, all of them alike.
pub open spec fn owed(
    request: Request,
    target: Target,
    global_multicast: bool,
    replies: Seq<ReplySeen<'_>>,
) -> bool {
    if target is OtherNode {
        replies.len() == 0
    } else {
        &&& replies.len() == leaves_on(global_multicast).len()
        &&& forall|i: int|
            0 <= i < replies.len() ==> (#[trigger] replies[i]).right(request) && replies[i].body@
                == replies[0].body@
    }
}

/// What is wrong with the replies where a divergence is reported.
pub open spec fn amiss(
    request: Request,
    target: Target,
    global_multicast: bool,
    replies: Seq<ReplySeen<'_>>,
    divergence: MessagesDivergence,
) -> bool {
    match divergence {
        MessagesDivergence::Answered => target is OtherNode && replies.len() != 0,
        MessagesDivergence::Replies { count } => {
            &&& !(target is OtherNode)
            &&& count == replies.len()
            &&& count != leaves_on(global_multicast).len()
        },
        MessagesDivergence::Reply { index } => {
            &&& !(target is OtherNode)
            &&& replies.len() == leaves_on(global_multicast).len()
            &&& index < replies.len()
            &&& forall|i: int| 0 <= i < index ==> (#[trigger] replies[i]).right(request)
            &&& !replies[index as int].right(request)
        },
        MessagesDivergence::Torn { index } => {
            &&& !(target is OtherNode)
            &&& replies.len() == leaves_on(global_multicast).len()
            &&& forall|i: int| 0 <= i < replies.len() ==> (#[trigger] replies[i]).right(request)
            &&& index < replies.len()
            &&& forall|i: int|
                0 <= i < index ==> (#[trigger] replies[i]).body@ == replies[0].body@
            &&& replies[index as int].body@ != replies[0].body@
        },
    }
}

fn check_replies(
    request: Request,
    target: Target,
    global_multicast: bool,
    replies: &[ReplySeen<'_>],
) -> (r: Result<(), MessagesDivergence>)
    ensures
        r is Ok <==> owed(request, target, global_multicast, replies@),
        r matches Err(divergence) ==> amiss(
            request,
            target,
            global_multicast,
            replies@,
            divergence,
        ),
{
    if !target.expects_reply() {
        if replies.len() != 0 {
            return Err(MessagesDivergence::Answered);
        }
        return Ok(());
    }
    let expected: usize = if global_multicast {
        1
    } else {
        NUM_PORTS as usize
    };
    if replies.len() != expected {
        return Err(MessagesDivergence::Replies { count: replies.len() });
    }
    let mut index: usize = 0;
    while index < replies.len()
        invariant
            !(target is OtherNode),
            replies@.len() == leaves_on(global_multicast).len(),
            index <= replies@.len(),
            forall|i: int| 0 <= i < index ==> (#[trigger] replies@[i]).right(request),
        decreases replies@.len() - index,
    {
        if !replies[index].is_right(request) {
            return Err(MessagesDivergence::Reply { index });
        }
        index = index + 1;
    }
    let mut copy: usize = 1;
    while copy < replies.len()
        invariant
            !(target is OtherNode),
            replies@.len() == leaves_on(global_multicast).len(),
            forall|i: int| 0 <= i < replies@.len() ==> (#[trigger] replies@[i]).right(request),
            1 <= copy <= replies@.len(),
            forall|i: int| 0 <= i < copy ==> (#[trigger] replies@[i]).body@ == replies@[0].body@,
        decreases replies@.len() - copy,
    {
        if first_difference(
            replies[copy].body.as_slice(),
            replies[0].body.as_slice(),
        ).is_some() {
            return Err(MessagesDivergence::Torn { index: copy });
        }
        copy = copy + 1;
    }
    Ok(())
}

/// Whether the reference answered one request as it should.
pub fn check(
    input: &BcmpMessagesInput,
    replies: &[ReplySeen<'_>],
) -> (r: Result<(), MessagesDivergence>)
    ensures
        r is Ok <==> owed(input.request, input.target, input.global_multicast, replies@),
        r matches Err(divergence) ==> amiss(
            input.request,
            input.target,
            input.global_multicast,
            replies@,
            divergence,
        ),
{
    check_replies(input.request, input.target, input.global_multicast, replies)
}

/// A request is addressed to every node or to the link.
pub proof fn law_a_request_is_addressed_as_it_is_sent(input: BcmpMessagesInput)
    ensures
        input.global_multicast ==> input.addressed()@ == GLOBAL_MULTICAST@,
        !input.global_multicast ==> input.addressed()@ == LINK_LOCAL_MULTICAST@,
{
}

/// A request names its target by its id, eight bytes little-endian.
pub proof fn law_a_request_names_its_target(id: u64)
    ensures
        id_bytes(id).len() == 8,
        crate::bytes::le(id_bytes(id)) == id,
{
    broadcast use lemma_le_bytes_len;

    crate::bytes::law_le_bytes_fit(id as nat);
}

/// An input is drawn field by field from the bytes that were written for it.
pub proof fn law_a_written_input_is_drawn_back(
    input: BcmpMessagesInput,
    request: u8,
    target: u8,
    port: u8,
    global: u8,
    more: Seq<u8>,
)
    requires
        1 <= port <= 2,
        input.drawn_from(seq![request, target, port, global] + more),
    ensures
        input.request is DeviceInfo <==> request % 2 == 1,
        input.target == Target::selected(target),
        input.ingress_port == port,
        input.global_multicast == (global % 2 == 1),
{
    let front = seq![request, target, port, global];
    assert(padded(front + more, 4) =~= front);
    crate::diff::domain::law_a_port_is_folded_into_its_range(port, 2);
}

/// A right reply is the one that was asked for, encodes back to its own bytes,
/// and says what the reference says: who it is, or that it has two ports with
/// something on them and no neighbours.
pub proof fn law_a_right_reply_says_what_the_reference_says(seen: ReplySeen<'_>, request: Request)
    requires
        seen.right(request),
    ensures
        seen.again@ == seen.body@,
        request is DeviceInfo ==> (seen.decoded matches Decoded::DeviceInfo(reply) && reply.info.node_id == NODE_ID && reply.version_string@ == VERSION_STRING@
            && reply.device_name@ == DEVICE_NAME@ && reply.info.vendor_id
            == OracleIdentity.info().vendor_id && reply.info.serial_num
            == OracleIdentity.info().serial_num),
        request is NeighborTable ==> (seen.decoded matches Decoded::NeighborTable(reply) && reply.node_id == NODE_ID && reply.ports@.len() == 2 && reply.ports@[0].state != 0
            && reply.ports@[1].state != 0 && reply.ports@[0].port_type == 0
            && reply.ports@[1].port_type == 0 && reply.neighbors@.len() == 0),
{
}

/// A node that is not named does not answer; one that is answers once per copy
/// that leaves, every time alike and every time right.
pub proof fn law_every_copy_of_a_reply_is_right(
    request: Request,
    target: Target,
    global_multicast: bool,
    replies: Seq<ReplySeen<'_>>,
    i: int,
    j: int,
)
    requires
        owed(request, target, global_multicast, replies),
    ensures
        target is OtherNode <==> replies.len() == 0,
        target !is OtherNode ==> replies.len() == if global_multicast { 1nat } else { 2nat },
        0 <= i < replies.len() && 0 <= j < replies.len() ==> replies[i].right(request)
            && replies[i].body@ == replies[j].body@,
{
}

/// What is faulted is really wrong, and nothing is faulted that was owed.
pub proof fn law_a_reply_is_faulted_for_what_is_wrong(
    request: Request,
    target: Target,
    global_multicast: bool,
    replies: Seq<ReplySeen<'_>>,
    divergence: MessagesDivergence,
)
    requires
        amiss(request, target, global_multicast, replies, divergence),
    ensures
        !owed(request, target, global_multicast, replies),
        match divergence {
            MessagesDivergence::Answered => target is OtherNode && replies.len() > 0,
            MessagesDivergence::Replies { count } => count == replies.len(),
            MessagesDivergence::Reply { index } => !replies[index as int].right(request),
            MessagesDivergence::Torn { index } => replies[index as int].body@ != replies[0].body@,
        },
{
}

/// What an input may be: arriving on one of two ports, with at most 2048
/// bytes to decode.
pub proof fn law_the_domain_is_what_the_reference_takes(input: BcmpMessagesInput)
    ensures
        input.in_domain() <==> {
            &&& input.ingress_port == 1 || input.ingress_port == 2
            &&& input.decode_probe@.len() <= 2048
        },
{
}

} // verus!
