//! Comparing pings: the request a node builds, down to the number it carries,
//! and the reply it gives to one.
//!
//! The reference copies as many payload bytes as a request announces, whatever
//! arrived, so an injected request announces what it carries.
use vstd::prelude::*;

use crate::bytes::{differ_first_at, first_difference, law_le_bytes_fit, le, le_bytes, shorter};
use crate::diff::compare::round_trips;
use crate::diff::domain::{fold_port, folded_port, Domain};
use crate::diff::frames::{blank, blank_frame, Unsealed};
use crate::diff::stack::{NODE_ID, NUM_PORTS};
use crate::frame::{Address, BCMP_HEADER_LEN, GLOBAL_MULTICAST, LINK_LOCAL_MULTICAST};
use crate::fuzz::{
    draw_bool, draw_rest, draw_sized, draw_u16, draw_u8,
    law_what_is_written_first_is_drawn_first, odd, padded, past_sized, rest, sized, source, unread,
};
use crate::message::{EchoReply, EchoRequest, MessageType};
use arbitrary::Unstructured;

verus! {

/// Node id the injected request appears to come from, and the one a ping is
/// aimed at. Anything but the reference's.
pub const PEER_NODE_ID: u64 = 0x0000_0000_55AA_0011;

/// Longest ping payload the comparison will use.
pub const MAX_PING_PAYLOAD: usize = 256;

/// Longest input for the decoders.
pub const MAX_PROBE: usize = 2048;

/// Length of an echo request's fixed half.
pub const ECHO_HEADER_LEN: usize = 14;

/// Who a ping, or an injected echo request, is addressed to.
#[derive(Debug, Clone, Copy, PartialEq, Eq, Structural)]
pub enum Target {
    /// Node 0, which every node answers for.
    All,
    /// The reference's own node id, which it answers.
    ThisNode,
    /// Somebody else's, which it must ignore.
    OtherNode,
}

impl Target {
    /// The node id that names it.
    pub open spec fn id(self) -> u64 {
        match self {
            Target::All => 0,
            Target::ThisNode => NODE_ID,
            Target::OtherNode => PEER_NODE_ID,
        }
    }

    /// The node id that names it.
    #[must_use]
    pub fn node_id(self) -> (r: u64)
        ensures
            r == self.id(),
    {
        match self {
            Target::All => 0,
            Target::ThisNode => NODE_ID,
            Target::OtherNode => PEER_NODE_ID,
        }
    }

    /// Whether the reference answers.
    #[must_use]
    pub fn expects_reply(self) -> (r: bool)
        ensures
            r == !(self is OtherNode),
    {
        match self {
            Target::OtherNode => false,
            _ => true,
        }
    }

    /// The target a byte selects.
    pub open spec fn selected(byte: u8) -> Target {
        if byte % 3 == 0 {
            Target::All
        } else if byte % 3 == 1 {
            Target::ThisNode
        } else {
            Target::OtherNode
        }
    }

    /// The target a byte selects.
    pub(crate) fn select(byte: u8) -> (r: Target)
        ensures
            r == Self::selected(byte),
    {
        match byte % 3 {
            0 => Target::All,
            1 => Target::ThisNode,
            _ => Target::OtherNode,
        }
    }
}

/// One ping sent by both sides and one echo request injected into both, and
/// bytes for the decoders alone.
#[derive(Debug)]
pub struct PingInput {
    /// Who the ping and the injected request are addressed to.
    pub target: Target,
    /// Port to inject on, 1..=[`NUM_PORTS`].
    pub ingress_port: u8,
    /// Address every node rather than the neighbours. The reply goes back to
    /// where the request went, so this decides whether it is stamped.
    pub global_multicast: bool,
    /// Identifier of the injected request, which the reply repeats.
    pub request_id: u16,
    /// Sequence number of the injected request, which the reply repeats.
    pub request_seq: u16,
    /// Hand the reference a length without a payload, which it takes for no
    /// payload.
    pub null_payload: bool,
    /// The ping payload, at most [`MAX_PING_PAYLOAD`] bytes.
    pub payload: Vec<u8>,
    /// Bytes for the decoders, never put to the reference; at most
    /// [`MAX_PROBE`].
    pub decode_probe: Vec<u8>,
}

impl Domain for PingInput {
    open spec fn in_domain(&self) -> bool {
        &&& 1 <= self.ingress_port <= NUM_PORTS
        &&& self.payload@.len() <= MAX_PING_PAYLOAD
        &&& self.decode_probe@.len() <= MAX_PROBE
    }

    fn clamp_to_domain(&mut self)
        ensures
            final(self).target == old(self).target,
            final(self).global_multicast == old(self).global_multicast,
            final(self).request_id == old(self).request_id,
            final(self).request_seq == old(self).request_seq,
            final(self).null_payload == old(self).null_payload,
            final(self).ingress_port == folded_port(old(self).ingress_port, NUM_PORTS),
            final(self).payload@ == old(self).payload@.take(
                shorter(old(self).payload@.len(), MAX_PING_PAYLOAD as nat) as int,
            ),
            final(self).decode_probe@ == old(self).decode_probe@.take(
                shorter(old(self).decode_probe@.len(), MAX_PROBE as nat) as int,
            ),
    {
        self.ingress_port = fold_port(self.ingress_port, NUM_PORTS);
        self.payload.truncate(MAX_PING_PAYLOAD);
        self.decode_probe.truncate(MAX_PROBE);
    }
}

impl PingInput {
    /// Every field but the two vectors is drawn from `s` and folded into the
    /// domain.
    pub open spec fn drawn_from(&self, s: Seq<u8>) -> bool {
        &&& self.target == Target::selected(padded(s, 3)[0])
        &&& self.ingress_port == folded_port(padded(s, 3)[1], NUM_PORTS)
        &&& self.global_multicast == (padded(s, 3)[2] % 2 == 1)
        &&& self.request_id == le(padded(rest(s, 3), 2))
        &&& self.request_seq == le(padded(rest(s, 5), 2))
        &&& self.null_payload == odd(rest(s, 7))
    }

    /// The two vectors, cut to length.
    pub open spec fn carries(&self, payload: Seq<u8>, probe: Seq<u8>) -> bool {
        &&& self.payload@ == payload.take(shorter(payload.len(), MAX_PING_PAYLOAD as nat) as int)
        &&& self.decode_probe@ == probe.take(shorter(probe.len(), MAX_PROBE as nat) as int)
    }

    /// Every field but the two vectors, before the port is folded.
    fn scalars(u: &mut Unstructured<'_>) -> (r: Self)
        ensures
            ({
                let s = unread(old(u));
                &&& unread(final(u)) == rest(s, 8)
                &&& r.target == Target::selected(padded(s, 3)[0])
                &&& r.ingress_port == padded(s, 3)[1]
                &&& r.global_multicast == (padded(s, 3)[2] % 2 == 1)
                &&& r.request_id == le(padded(rest(s, 3), 2))
                &&& r.request_seq == le(padded(rest(s, 5), 2))
                &&& r.null_payload == odd(rest(s, 7))
            }),
    {
        let ghost s = unread(u);
        let target = Target::select(draw_u8(u));
        let ingress_port = draw_u8(u);
        let global_multicast = draw_bool(u);
        assert(unread(u) =~= rest(s, 3));
        let request_id = draw_u16(u);
        assert(unread(u) =~= rest(s, 5));
        let request_seq = draw_u16(u);
        assert(unread(u) =~= rest(s, 7));
        let null_payload = draw_bool(u);
        assert(unread(u) =~= rest(s, 8));
        PingInput {
            target,
            ingress_port,
            global_multicast,
            request_id,
            request_seq,
            null_payload,
            payload: Vec::new(),
            decode_probe: Vec::new(),
        }
    }

    /// Draw an input, payload and probe each by a length and then that many
    /// bytes.
    pub fn arbitrary(u: &mut Unstructured<'_>) -> (r: Self)
        ensures
            ({
                let s = unread(old(u));
                &&& r.in_domain()
                &&& r.drawn_from(s)
                &&& r.carries(sized(rest(s, 8)), sized(past_sized(rest(s, 8))))
                &&& unread(final(u)) == past_sized(past_sized(rest(s, 8)))
            }),
    {
        let mut input = Self::scalars(u);
        input.payload = draw_sized(u);
        input.decode_probe = draw_sized(u);
        input.clamp_to_domain();
        input
    }

    /// Draw an input, its payload by a length and then that many bytes, its
    /// probe being everything that is left.
    pub fn arbitrary_take_rest(u: Unstructured<'_>) -> (r: Self)
        ensures
            ({
                let s = unread(&u);
                &&& r.in_domain()
                &&& r.drawn_from(s)
                &&& r.carries(sized(rest(s, 8)), past_sized(rest(s, 8)))
            }),
    {
        let mut u = u;
        let mut input = Self::scalars(&mut u);
        input.payload = draw_sized(&mut u);
        input.decode_probe = draw_rest(u);
        input.clamp_to_domain();
        input
    }

    /// The input a seed file holds.
    pub fn from_seed(seed: &[u8]) -> (r: Self)
        ensures
            r.in_domain(),
            r.drawn_from(seed@),
            r.carries(sized(rest(seed@, 8)), past_sized(rest(seed@, 8))),
    {
        Self::arbitrary_take_rest(source(seed))
    }

    /// The address both sides send to.
    pub open spec fn addressed(&self) -> Address {
        if self.global_multicast {
            GLOBAL_MULTICAST
        } else {
            LINK_LOCAL_MULTICAST
        }
    }

    /// The address both sides send to.
    #[must_use]
    pub fn destination(&self) -> (r: Address)
        ensures
            r == self.addressed(),
    {
        if self.global_multicast {
            GLOBAL_MULTICAST
        } else {
            LINK_LOCAL_MULTICAST
        }
    }

    /// What the ping actually carries: without a payload its length counts for
    /// nothing.
    #[must_use]
    pub fn sent_payload(&self) -> (r: &[u8])
        ensures
            r@ == if self.null_payload {
                Seq::empty()
            } else {
                self.payload@
            },
    {
        if self.null_payload {
            vstd::slice::slice_subrange(self.payload.as_slice(), 0, 0)
        } else {
            self.payload.as_slice()
        }
    }

    /// The payload the echo request to inject carries: no more of it than the
    /// domain allows.
    pub open spec fn carried_payload(&self) -> Seq<u8> {
        self.payload@.take(shorter(self.payload@.len(), MAX_PING_PAYLOAD as nat) as int)
    }

    /// The echo request to inject.
    #[must_use]
    pub fn request(&self) -> (r: EchoRequest<'_>)
        ensures
            r.target_node_id == self.target.id(),
            r.id == self.request_id,
            r.seq_num == self.request_seq,
            r.payload@ == self.carried_payload(),
    {
        let len = if self.payload.len() <= MAX_PING_PAYLOAD {
            self.payload.len()
        } else {
            MAX_PING_PAYLOAD
        };
        let payload = vstd::slice::slice_subrange(self.payload.as_slice(), 0, len);
        assert(payload@ =~= self.carried_payload());
        EchoRequest {
            target_node_id: self.target.node_id(),
            id: self.request_id,
            seq_num: self.request_seq,
            payload,
        }
    }
}

/// The frame an input injects once it is in the domain, before its header and
/// checksum are written. `encoded` is [`PingInput::request`] encoded, and
/// `peer` the link-local address of [`PEER_NODE_ID`].
#[must_use]
pub fn build_request(
    input: &PingInput,
    encoded: Vec<u8>,
    peer: &Address,
    next_header: u8,
) -> (r: Unsealed)
    requires
        encoded@.len() == ECHO_HEADER_LEN + input.carried_payload().len(),
    ensures
        r.frame@ == blank(
            peer@,
            input.addressed()@,
            next_header,
            BCMP_HEADER_LEN as nat + encoded@.len(),
        ),
        r.message_type is EchoRequest,
        r.body@ == encoded@,
{
    let frame = blank_frame(
        peer,
        &input.destination(),
        next_header,
        BCMP_HEADER_LEN + encoded.len(),
    );
    Unsealed { frame, message_type: MessageType::EchoRequest, body: encoded }
}

/// The ports a message to this destination leaves on: all of them at once for
/// one to every node, which the number 0 stands for, and otherwise one after
/// the other.
pub open spec fn leaves_on(global_multicast: bool) -> Seq<u8> {
    if global_multicast {
        seq![0u8]
    } else {
        Seq::new(NUM_PORTS as nat, |i: int| (i + 1) as u8)
    }
}

/// The ports a message to this destination leaves on, 0 for all at once.
#[must_use]
pub fn egress_ports(global_multicast: bool) -> (r: Vec<u8>)
    ensures
        r@ == leaves_on(global_multicast),
{
    let mut ports: Vec<u8> = Vec::new();
    if global_multicast {
        ports.push(0);
    } else {
        let mut port: u8 = 0;
        while port < NUM_PORTS
            invariant
                port <= NUM_PORTS,
                ports@.len() == port,
                forall|i: int| 0 <= i < port ==> ports@[i] == i + 1,
            decreases NUM_PORTS - port,
        {
            port = port + 1;
            ports.push(port);
        }
    }
    assert(ports@ =~= leaves_on(global_multicast));
    ports
}

/// How a ping differs.
#[derive(Debug, Clone, Copy, PartialEq, Eq, Structural)]
pub enum PingDivergence {
    /// The reference put a different number of copies on the wire.
    Copies {
        /// How many it sent.
        reference: usize,
    },
    /// A copy's bytes differ.
    Byte {
        /// Which copy.
        index: usize,
        /// The first byte that differs.
        at: usize,
    },
    /// The node did not send the ping.
    NotSent,
    /// The node did not answer.
    NotAnswered,
    /// The reference answered a request for somebody else.
    ReferenceAnswered,
    /// The node answered a request for somebody else.
    NodeAnswered,
}

/// Every copy the reference put on the wire is the node's copy for that port.
pub open spec fn same_copies(reference: Seq<Vec<u8>>, node: Seq<Vec<u8>>) -> bool {
    &&& reference.len() == node.len()
    &&& forall|i: int| 0 <= i < reference.len() ==> (#[trigger] reference[i])@ == node[i]@
}

/// The divergence two sets of copies show: in their number before anything
/// else, then in the first copy that differs.
pub open spec fn copies_part(
    reference: Seq<Vec<u8>>,
    node: Seq<Vec<u8>>,
    divergence: PingDivergence,
) -> bool {
    match divergence {
        PingDivergence::Copies { reference: copies } => copies == reference.len()
            && reference.len() != node.len(),
        PingDivergence::Byte { index, at } => {
            &&& reference.len() == node.len()
            &&& index < node.len()
            &&& same_copies(reference.take(index as int), node.take(index as int))
            &&& differ_first_at(reference[index as int]@, node[index as int]@, at as int)
        },
        _ => false,
    }
}

/// Compare what the reference put on the wire with the node's frame, one copy
/// of it for every port in [`egress_ports`], in that order.
pub fn compare_transmitted(
    global_multicast: bool,
    reference: &[Vec<u8>],
    node: &[Vec<u8>],
) -> (r: Result<(), PingDivergence>)
    requires
        node@.len() == leaves_on(global_multicast).len(),
    ensures
        r is Ok <==> same_copies(reference@, node@),
        r matches Err(divergence) ==> copies_part(reference@, node@, divergence),
{
    if reference.len() != node.len() {
        return Err(PingDivergence::Copies { reference: reference.len() });
    }
    let mut index: usize = 0;
    while index < reference.len()
        invariant
            index <= reference@.len(),
            reference@.len() == node@.len(),
            forall|i: int| 0 <= i < index ==> (#[trigger] reference@[i])@ == node@[i]@,
        decreases reference@.len() - index,
    {
        match first_difference(reference[index].as_slice(), node[index].as_slice()) {
            Some(at) => {
                assert(reference@[index as int]@ != node@[index as int]@);
                return Err(PingDivergence::Byte { index, at });
            },
            None => {},
        }
        index = index + 1;
    }
    Ok(())
}

/// Compare the echo requests both sides sent. `node` holds a copy of the
/// node's frame per port, if it sent one.
pub fn check_request(
    input: &PingInput,
    reference: &[Vec<u8>],
    node: Option<&[Vec<u8>]>,
) -> (r: Result<(), PingDivergence>)
    requires
        node matches Some(copies) ==> copies@.len() == leaves_on(input.global_multicast).len(),
    ensures
        r is Ok <==> (node matches Some(copies) && same_copies(reference@, copies@)),
        r matches Err(divergence) ==> match node {
            Some(copies) => copies_part(reference@, copies@, divergence),
            None => divergence is NotSent,
        },
{
    match node {
        Some(copies) => compare_transmitted(input.global_multicast, reference, copies),
        None => Err(PingDivergence::NotSent),
    }
}

/// Compare the replies both sides gave to the injected request. `node` holds a
/// copy of the node's reply per port, if it gave one.
pub fn check_reply(
    input: &PingInput,
    reference: &[Vec<u8>],
    node: Option<&[Vec<u8>]>,
) -> (r: Result<(), PingDivergence>)
    requires
        node matches Some(copies) ==> copies@.len() == leaves_on(input.global_multicast).len(),
    ensures
        input.target is OtherNode ==> (r is Ok <==> reference@.len() == 0 && node is None),
        !(input.target is OtherNode) ==> (r is Ok <==> (node matches Some(copies) && same_copies(
            reference@,
            copies@,
        ))),
        r matches Err(divergence) ==> if input.target is OtherNode {
            if reference@.len() != 0 {
                divergence is ReferenceAnswered
            } else {
                divergence is NodeAnswered
            }
        } else {
            match node {
                Some(copies) => copies_part(reference@, copies@, divergence),
                None => divergence is NotAnswered,
            }
        },
{
    if !input.target.expects_reply() {
        if reference.len() != 0 {
            return Err(PingDivergence::ReferenceAnswered);
        }
        if node.is_some() {
            return Err(PingDivergence::NodeAnswered);
        }
        return Ok(());
    }
    match node {
        Some(copies) => compare_transmitted(input.global_multicast, reference, copies),
        None => Err(PingDivergence::NotAnswered),
    }
}

/// What decoding a probe gave.
#[derive(Debug)]
pub struct Probed<'a> {
    /// As an echo request, and the bytes that encodes to again.
    pub request: Option<(EchoRequest<'a>, Vec<u8>)>,
    /// As an echo reply.
    pub reply: Option<EchoReply<'a>>,
}

/// Two replies are the same, payload and all.
pub open spec fn same_reply(a: EchoReply<'_>, b: EchoReply<'_>) -> bool {
    &&& a.node_id == b.node_id
    &&& a.id == b.id
    &&& a.seq_num == b.seq_num
    &&& a.payload@ == b.payload@
}

/// Whether the two decoders are consistent on a probe: request and reply have
/// one layout, so either both refuse the bytes, or both read the same fields
/// and the request encodes back to the front of the bytes.
#[must_use]
pub fn decoders_agree(bytes: &[u8], probed: &Probed<'_>) -> (r: bool)
    ensures
        r <==> match (probed.request, probed.reply) {
            (None, None) => true,
            (Some(request), Some(reply)) => {
                &&& request.1@.len() <= bytes@.len()
                &&& request.1@ == bytes@.take(request.1@.len() as int)
                &&& same_reply(request.0.answered_by(request.0.target_node_id), reply)
            },
            _ => false,
        },
{
    match (&probed.request, &probed.reply) {
        (None, None) => true,
        (Some((request, again)), Some(reply)) => {
            if !round_trips(bytes, again.as_slice()) {
                return false;
            }
            let answer = request.into_reply(request.target_node_id);
            answer.node_id == reply.node_id && answer.id == reply.id && answer.seq_num
                == reply.seq_num && first_difference(answer.payload, reply.payload).is_none()
        },
        _ => false,
    }
}

/// Answering as another node changes nothing but who answers.
pub proof fn law_a_reply_repeats_its_request(request: EchoRequest<'_>, node_id: u64)
    ensures
        request.answered_by(node_id).node_id == node_id,
        request.answered_by(node_id).id == request.id,
        request.answered_by(node_id).seq_num == request.seq_num,
        request.answered_by(node_id).payload == request.payload,
{
}

/// Each target goes by its own id: everybody by zero, this node and the peer by
/// theirs. Every byte selects one, in turn.
pub proof fn law_each_target_has_its_own_id(a: Target, b: Target, byte: u8)
    ensures
        a.id() == b.id() ==> a == b,
        a.id() == 0 <==> a is All,
        a.id() == NODE_ID <==> a is ThisNode,
        a.id() == PEER_NODE_ID <==> a is OtherNode,
        Target::selected(0) is All && Target::selected(1) is ThisNode && Target::selected(2)
            is OtherNode,
        byte <= 252 ==> Target::selected((byte + 3) as u8) == Target::selected(byte),
{
}

/// A ping to every node is addressed to every node and leaves on all ports at
/// once; one for the link is addressed to the link and leaves on each port, in
/// order.
pub proof fn law_a_ping_leaves_on_the_ports_it_is_addressed_to(input: PingInput)
    ensures
        input.global_multicast ==> input.addressed()@ == GLOBAL_MULTICAST@ && leaves_on(
            input.global_multicast,
        ) =~= seq![0u8],
        !input.global_multicast ==> input.addressed()@ == LINK_LOCAL_MULTICAST@ && leaves_on(
            input.global_multicast,
        ) =~= seq![1u8, 2u8],
{
}

/// A payload or a probe is cut only if it is too long, and then to its front.
pub proof fn law_a_payload_is_cut_only_if_it_must_be(
    input: PingInput,
    payload: Seq<u8>,
    probe: Seq<u8>,
)
    ensures
        input.payload@.len() <= 256 ==> input.carried_payload() =~= input.payload@,
        input.payload@.len() > 256 ==> input.carried_payload() =~= input.payload@.take(256),
        input.carries(payload, probe) && payload.len() <= 256 ==> input.payload@ =~= payload,
        input.carries(payload, probe) && payload.len() > 256 ==> input.payload@
            =~= payload.take(256),
        input.carries(payload, probe) && probe.len() <= 2048 ==> input.decode_probe@ =~= probe,
        input.carries(payload, probe) && probe.len() > 2048 ==> input.decode_probe@
            =~= probe.take(2048),
{
}

/// An input is drawn field by field from the bytes that were written for it.
pub proof fn law_a_written_input_is_drawn_back(
    input: PingInput,
    target: u8,
    port: u8,
    global: u8,
    id: u16,
    seq: u16,
    null: u8,
    more: Seq<u8>,
)
    requires
        input.drawn_from(
            seq![target, port, global] + (le_bytes(id as nat, 2) + (le_bytes(seq as nat, 2) + (seq![
                null,
            ] + more))),
        ),
        1 <= port <= 2,
    ensures
        input.target == Target::selected(target),
        input.ingress_port == port,
        input.global_multicast == (global % 2 == 1),
        input.request_id == id,
        input.request_seq == seq,
        input.null_payload == (null % 2 == 1),
{
    broadcast use crate::bytes::lemma_le_bytes_len;

    let s3 = seq![null] + more;
    let s2 = le_bytes(seq as nat, 2) + s3;
    let s1 = le_bytes(id as nat, 2) + s2;
    let s = seq![target, port, global] + s1;
    law_le_bytes_fit(id as nat);
    law_le_bytes_fit(seq as nat);
    law_what_is_written_first_is_drawn_first(seq![target, port, global], s1, 0);
    law_what_is_written_first_is_drawn_first(le_bytes(id as nat, 2), s2, 0);
    law_what_is_written_first_is_drawn_first(le_bytes(seq as nat, 2), s3, 0);
    law_what_is_written_first_is_drawn_first(seq![null], more, 0);
    assert(padded(s, 3) =~= seq![target, port, global]);
    assert(rest(s, 5) =~= rest(rest(s, 3), 2));
    assert(rest(s, 7) =~= rest(rest(s, 5), 2));
    crate::diff::domain::law_a_port_is_folded_into_its_range(port, 2);
}

/// Copies differ where they are said to: in their number, or first at a byte of
/// the first copy that differs.
pub proof fn law_a_difference_between_copies_is_real(
    reference: Seq<Vec<u8>>,
    node: Seq<Vec<u8>>,
    divergence: PingDivergence,
)
    requires
        copies_part(reference, node, divergence),
    ensures
        !same_copies(reference, node),
        match divergence {
            PingDivergence::Copies { reference: copies } => copies == reference.len() && copies
                != node.len(),
            PingDivergence::Byte { index, at } => {
                &&& reference[index as int]@ != node[index as int]@
                &&& forall|i: int| 0 <= i < index ==> (#[trigger] reference[i])@ == node[i]@
            },
            _ => false,
        },
        same_copies(reference, reference),
{
    match divergence {
        PingDivergence::Byte { index, at } => {
            crate::bytes::law_there_is_one_first_difference(
                reference[index as int]@,
                node[index as int]@,
                at as int,
                at as int,
            );
            assert forall|i: int| 0 <= i < index implies (#[trigger] reference[i])@ == node[i]@ by {
                assert(reference.take(index as int)[i]@ == node.take(index as int)[i]@);
            }
        },
        _ => {},
    }
}

/// Two echoes are the same exactly if they say the same: who answers, what was
/// asked under, and what was sent along.
pub proof fn law_the_same_echo_says_the_same(a: EchoReply<'_>, b: EchoReply<'_>)
    ensures
        same_reply(a, b) ==> a.node_id == b.node_id && a.id == b.id && a.seq_num == b.seq_num
            && a.payload@ == b.payload@,
        same_reply(a, a),
        a.node_id != b.node_id || a.id != b.id || a.seq_num != b.seq_num || a.payload@
            != b.payload@ ==> !same_reply(a, b),
{
}

/// What an input may be: arriving on one of two ports, with at most 256
/// bytes to echo and at most 2048 to decode.
pub proof fn law_the_domain_is_what_the_reference_takes(input: PingInput)
    ensures
        input.in_domain() <==> {
            &&& input.ingress_port == 1 || input.ingress_port == 2
            &&& input.payload@.len() <= 256
            &&& input.decode_probe@.len() <= 2048
        },
{
}

} // verus!
