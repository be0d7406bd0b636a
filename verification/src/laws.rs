//! What holds of every exchange a node takes part in, whatever the answers to
//! its questions are.
use vstd::prelude::*;

use crate::bytes::be;
use crate::frame::{
    Address, BCMP_HEADER_LEN, IPV6_PAYLOAD_LENGTH_OFFSET, LINK_LOCAL_MULTICAST,
    MIN_FRAME_WITH_ADDRESSES,
};
use crate::links::{in_mask, lemma_port_range, lemma_ports_in, port_range, ports_in};
use crate::message::{InfoRequestKind, MessageType, SystemTimeHeader};
use crate::node::{
    addressed_to, clipped, handled, length_written, ordered, rewritten, system_time, transfers,
    Answer, Body, Decoded, Duty, Event, Exchange, Heard, Next, Node, Owing, Progress, Received,
    Reflood, Stage, Transfer, TxKind, MESSAGE_TYPES, OWN_TYPES,
};
use crate::port::{Egress, Identity};

verus! {

/// Every exchange ends: each answer leaves it with fewer questions to ask, so
/// that a received frame costs at most ten of them.
pub proof fn law_every_exchange_ends<'a, I: Identity, const P: usize>(
    node: &Node<I, P>,
    e: Exchange<'a>,
    answer: Answer<'a>,
)
    ensures
        e.rank() <= 10,
        node.after(e, answer).next matches Next::Continue(later) ==> later.rank() < e.rank(),
{
}

/// A relay depends on the routing policy alone: once the frame is routed, no
/// answer changes which ports it is relayed to, nor when and where it arrived.
/// A frame the stack drops is relayed all the same.
pub proof fn law_a_relay_survives_the_stack<'a, I: Identity, const P: usize>(
    node: &Node<I, P>,
    e: Exchange<'a>,
    answer: Answer<'a>,
)
    requires
        e.stage !is Routing,
    ensures
        match node.after(e, answer).next {
            Next::Continue(later) => later.relay == e.relay && later.now_ms == e.now_ms
                && later.ingress_port == e.ingress_port && later.stage !is Routing,
            Next::Finished(owing) => owing.relay == if e.relay != 0 {
                Some(e.relay)
            } else {
                None
            },
        },
{
}

/// What a whole exchange came to: everything the application was told, in
/// order, and what is owed to the network.
pub struct Outcome<'a> {
    /// What the application was told.
    pub events: Seq<Event<'a>>,
    /// What is owed to the network.
    pub owing: Owing<'a>,
}

/// What an event adds to those told already.
pub open spec fn told<'a>(event: Option<Event<'a>>) -> Seq<Event<'a>> {
    match event {
        Some(event) => seq![event],
        None => Seq::empty(),
    }
}

/// What an exchange comes to with these answers, one after the other. `None`,
/// if it still has a question left when they run out.
pub open spec fn concluded<'a, I: Identity, const P: usize>(
    node: &Node<I, P>,
    e: Exchange<'a>,
    answers: Seq<Answer<'a>>,
) -> Option<Outcome<'a>>
    decreases answers.len(),
{
    if answers.len() == 0 {
        None
    } else {
        let progress = node.after(e, answers[0]);
        match progress.next {
            Next::Finished(owing) => Some(Outcome { events: told(progress.event), owing }),
            Next::Continue(later) => match concluded(node, later, answers.skip(1)) {
                Some(outcome) => Some(
                    Outcome { events: told(progress.event) + outcome.events, ..outcome },
                ),
                None => None,
            },
        }
    }
}

/// Whoever answers every question of an exchange gets to its end: as many
/// answers as its stage has questions left are enough, whatever they are.
pub proof fn law_an_answered_exchange_is_over<'a, I: Identity, const P: usize>(
    node: &Node<I, P>,
    e: Exchange<'a>,
    answers: Seq<Answer<'a>>,
)
    requires
        answers.len() >= e.rank(),
    ensures
        concluded(node, e, answers) is Some,
    decreases answers.len(),
{
    match node.after(e, answers[0]).next {
        Next::Finished(_) => {},
        Next::Continue(later) => {
            law_every_exchange_ends(node, e, answers[0]);
            law_an_answered_exchange_is_over(node, later, answers.skip(1));
        },
    }
}

/// The ports a mask relays to, if it has any.
pub open spec fn relayed(mask: u16) -> Option<u16> {
    if mask != 0 {
        Some(mask)
    } else {
        None
    }
}

/// Once a frame is routed, the whole rest of the exchange leaves its relay as
/// it is, whether the frame is answered, dropped or taken for damaged.
pub proof fn law_a_routed_frame_is_relayed_to_the_end<'a, I: Identity, const P: usize>(
    node: &Node<I, P>,
    e: Exchange<'a>,
    answers: Seq<Answer<'a>>,
)
    requires
        e.stage !is Routing,
    ensures
        concluded(node, e, answers) matches Some(outcome) ==> outcome.owing.relay == relayed(
            e.relay,
        ),
    decreases answers.len(),
{
    if answers.len() > 0 {
        law_a_relay_survives_the_stack(node, e, answers[0]);
        match node.after(e, answers[0]).next {
            Next::Finished(_) => {},
            Next::Continue(later) => {
                law_a_routed_frame_is_relayed_to_the_end(node, later, answers.skip(1));
            },
        }
    }
}

/// The routing policy alone decides what becomes of an arriving frame on the
/// other ports: it is relayed to the ports the policy says and to no others.
/// A frame the policy withholds from this node tells the application nothing
/// and is not answered.
pub proof fn law_the_policy_alone_decides_the_relay<'a, I: Identity, const P: usize>(
    node: &Node<I, P>,
    now_ms: u32,
    ingress_port: u8,
    routing: crate::node::Routing,
    answers: Seq<Answer<'a>>,
)
    requires
        answers.len() > 0,
        answers[0] == Answer::Routed(routing),
    ensures
        ({
            let e = Exchange { now_ms, ingress_port, relay: 0, stage: Stage::Routing };
            concluded(node, e, answers) matches Some(outcome) ==> {
                &&& outcome.owing.relay == relayed(routing.egress_mask)
                &&& !routing.should_submit ==> outcome.events.len() == 0 && outcome.owing.reply
                    is None && outcome.owing.forward is None
            }
        }),
{
    let e = Exchange { now_ms, ingress_port, relay: 0, stage: Stage::Routing };
    match node.after(e, answers[0]).next {
        Next::Finished(_) => {},
        Next::Continue(later) => {
            law_a_routed_frame_is_relayed_to_the_end(node, later, answers.skip(1));
        },
    }
}

/// A frame that does not validate tells the application nothing and is not
/// answered.
pub proof fn law_a_damaged_frame_is_not_answered<'a, I: Identity, const P: usize>(
    node: &Node<I, P>,
    e: Exchange<'a>,
)
    requires
        e.stage is Accepting,
    ensures
        node.after(e, Answer::Rejected) == e.ends(),
{
}

/// The one kind of message an exchange can still put on the network of its
/// own, and where it goes, once the frame that started it has been accepted.
pub open spec fn promised(stage: Stage<'_>) -> Option<(MessageType, Address)> {
    match stage {
        Stage::Looking(received) | Stage::Decoding(received) => match received.message_type {
            MessageType::DeviceInfoRequest => Some(
                (MessageType::DeviceInfoReply, received.destination),
            ),
            MessageType::NeighborTableRequest => Some(
                (MessageType::NeighborTableReply, received.destination),
            ),
            MessageType::EchoRequest => Some((MessageType::EchoReply, received.destination)),
            MessageType::SystemTimeRequest | MessageType::SystemTimeSet => Some(
                (MessageType::SystemTimeResponse, LINK_LOCAL_MULTICAST),
            ),
            MessageType::Heartbeat => Some(
                (MessageType::DeviceInfoRequest, LINK_LOCAL_MULTICAST),
            ),
            _ => None,
        },
        Stage::Hearing(_, _)
        | Stage::Forgetting(_, _, _)
        | Stage::Recalling(_)
        | Stage::Recording(_, _)
        | Stage::Checking(_, _) => Some((MessageType::DeviceInfoRequest, LINK_LOCAL_MULTICAST)),
        Stage::Reading(_) | Stage::Setting(_, _) => Some(
            (MessageType::SystemTimeResponse, LINK_LOCAL_MULTICAST),
        ),
        Stage::Sequencing { destination, message_type, .. } => Some((message_type, destination)),
        Stage::Aging | Stage::Sweeping => Some((MessageType::Heartbeat, LINK_LOCAL_MULTICAST)),
        _ => None,
    }
}

/// What a message can make a node send is settled by its type: a request is
/// answered by the reply of its kind to the address it was sent to, a question
/// or an instruction about the time by a time response on the link, a
/// heartbeat by a device-info request on the link, and nothing else by
/// anything. Whatever the answers on the way, no other message goes out.
pub proof fn law_each_message_has_its_own_reply<'a, I: Identity, const P: usize>(
    node: &Node<I, P>,
    e: Exchange<'a>,
    answers: Seq<Answer<'a>>,
)
    requires
        e.stage !is Routing,
        e.stage !is Accepting,
    ensures
        concluded(node, e, answers) matches Some(outcome) ==> (outcome.owing.reply matches Some(
            draft,
        ) ==> promised(e.stage) == Some((draft.message_type, draft.destination))),
    decreases answers.len(),
{
    if answers.len() > 0 {
        match node.after(e, answers[0]).next {
            Next::Finished(_) => {},
            Next::Continue(later) => {
                law_each_message_has_its_own_reply(node, later, answers.skip(1));
                if promised(later.stage) is Some {
                    assert(promised(later.stage) == promised(e.stage));
                }
            },
        }
    }
}

/// How many more things an exchange can tell the application.
pub open spec fn tellable(stage: Stage<'_>) -> nat {
    match stage {
        Stage::Routing | Stage::Accepting | Stage::Looking(_) => 2,
        Stage::Decoding(_) | Stage::Matching(_, _) | Stage::Comparing(_, _) => 1,
        _ => 0,
    }
}

/// A frame tells the application at most two things: that a message arrived,
/// and what it was found to answer.
pub proof fn law_a_frame_tells_at_most_two_things<'a, I: Identity, const P: usize>(
    node: &Node<I, P>,
    e: Exchange<'a>,
    answers: Seq<Answer<'a>>,
)
    ensures
        tellable(e.stage) <= 2,
        concluded(node, e, answers) matches Some(outcome) ==> outcome.events.len() <= tellable(
            e.stage,
        ),
    decreases answers.len(),
{
    if answers.len() > 0 {
        match node.after(e, answers[0]).next {
            Next::Finished(_) => {},
            Next::Continue(later) => {
                law_a_frame_tells_at_most_two_things(node, later, answers.skip(1));
            },
        }
    }
}

/// A message of an unregistered type leaves no trace: no event, no reply, no
/// re-flood.
pub proof fn law_an_unregistered_type_is_dropped<'a, I: Identity, const P: usize>(
    node: &Node<I, P>,
    e: Exchange<'a>,
    received: Received<'a>,
)
    requires
        e.stage == Stage::Looking(received),
    ensures
        node.after(e, Answer::Unregistered) == e.ends(),
{
}

/// A reply that answers an outstanding request reaches the application
/// instead of its type's processor: one event, and nothing on the wire.
pub proof fn law_a_matched_reply_replaces_processing<'a, I: Identity, const P: usize>(
    node: &Node<I, P>,
    e: Exchange<'a>,
    received: Received<'a>,
    request: crate::message::PendingRequest,
)
    requires
        e.stage == Stage::Looking(received),
    ensures
        ({
            let progress = node.after(e, Answer::SequencedReply(request));
            &&& progress.event matches Some(Event::Reply { request: answered, payload, .. })
            &&& answered == request && payload == received.payload
            &&& progress.next == e.over(None, None)
        }),
{
}

/// A message for another node is never answered: a request that names neither
/// this node nor everybody ends the exchange without a word.
pub proof fn law_a_request_for_another_node_is_ignored<'a, I: Identity, const P: usize>(
    node: &Node<I, P>,
    e: Exchange<'a>,
    received: Received<'a>,
    decoded: Decoded<'a>,
)
    requires
        e.stage == Stage::Decoding(received),
        match decoded {
            Decoded::Target(target) => !addressed_to(target, node.id()),
            Decoded::EchoRequest(request) => !addressed_to(request.target_node_id, node.id()),
            _ => false,
        },
    ensures
        node.after(e, Answer::Body(decoded)) == e.ends(),
{
}

/// Whether an exchange ends in a re-flood.
pub open spec fn refloods(next: Next<'_>) -> bool {
    match next {
        Next::Finished(owing) => owing.forward is Some,
        Next::Continue(_) => false,
    }
}

/// Whether `answer` finds the message of an exchange to be a system-time
/// message for a node other than `our_id`.
pub open spec fn time_for_another<'a>(e: Exchange<'a>, answer: Answer<'a>, our_id: u64) -> bool {
    match (e.stage, answer) {
        (
            Stage::Decoding(received),
            Answer::Body(Decoded::SystemTime { header, .. }),
        ) => system_time(received.message_type) && !header.local_to(our_id),
        _ => false,
    }
}

/// Only a system-time message for another node is re-flooded, every such
/// message is, and nothing is sent besides.
pub proof fn law_only_time_messages_for_others_are_reflooded<'a, I: Identity, const P: usize>(
    node: &Node<I, P>,
    e: Exchange<'a>,
    answer: Answer<'a>,
)
    ensures
        refloods(node.after(e, answer).next) <==> time_for_another(e, answer, node.id()),
        node.after(e, answer).next matches Next::Finished(owing) ==> !(owing.forward is Some
            && owing.reply is Some),
{
}

/// What is re-flooded is the message as it arrived: header and body, from
/// where the header starts to where the body ends.
pub proof fn law_a_reflood_is_the_whole_message<'a, I: Identity, const P: usize>(
    node: &Node<I, P>,
    e: Exchange<'a>,
    answer: Answer<'a>,
    received: Received<'a>,
)
    requires
        e.stage == Stage::Decoding(received),
        received.payload@.len() <= 0xFFFF,
    ensures
        node.after(e, answer).next matches Next::Finished(owing) ==> (owing.forward matches Some(
            reflood,
        ) ==> reflood.start == 54 && reflood.end == 54 + 13 + received.payload@.len()
            && reflood.ingress_port == received.ingress_port),
{
}

/// A re-flood's range lies inside the frame it was accepted from, from the
/// BCMP header to where the IPv6 payload length says the message ends; so the
/// message can always be read back out of the frame. The message a receiver
/// accepts is header and body together as long as that length says, and lies
/// inside the frame.
pub proof fn law_a_reflood_lies_inside_its_frame<'a, I: Identity, const P: usize>(
    node: &Node<I, P>,
    e: Exchange<'a>,
    answer: Answer<'a>,
    received: Received<'a>,
    frame: Seq<u8>,
)
    requires
        e.stage == Stage::Decoding(received),
        frame.len() <= usize::MAX,
        ({
            let plen = be(
                frame.subrange(
                    IPV6_PAYLOAD_LENGTH_OFFSET as int,
                    IPV6_PAYLOAD_LENGTH_OFFSET + 2,
                ),
            );
            &&& BCMP_HEADER_LEN + received.payload@.len() == plen
            &&& MIN_FRAME_WITH_ADDRESSES + plen <= frame.len()
        }),
    ensures
        node.after(e, answer).next matches Next::Finished(owing) ==> (owing.forward matches Some(
            reflood,
        ) ==> {
            let plen = be(
                frame.subrange(
                    IPV6_PAYLOAD_LENGTH_OFFSET as int,
                    IPV6_PAYLOAD_LENGTH_OFFSET + 2,
                ),
            );
            &&& reflood.start == MIN_FRAME_WITH_ADDRESSES
            &&& reflood.end == MIN_FRAME_WITH_ADDRESSES + plen
            &&& reflood.start <= reflood.end <= frame.len()
            &&& reflood.part_of(frame) == frame.subrange(
                MIN_FRAME_WITH_ADDRESSES as int,
                MIN_FRAME_WITH_ADDRESSES + plen,
            )
        }),
{
}

/// A message of the node's own goes out on every port the node has and on no
/// other, whatever started the exchange and whatever the answers were.
pub proof fn law_the_nodes_own_messages_go_out_on_every_port<'a, I: Identity, const P: usize>(
    node: &Node<I, P>,
    e: Exchange<'a>,
    answers: Seq<Answer<'a>>,
    port: u8,
)
    ensures
        concluded(node, e, answers) matches Some(outcome) ==> (outcome.owing.reply matches Some(
            draft,
        ) ==> {
            &&& draft.mask == port_range(node.ports())
            &&& in_mask(draft.mask, port) <==> 1 <= port <= 16 && port <= node.ports()
        }),
    decreases answers.len(),
{
    lemma_port_range(node.ports());
    if answers.len() > 0 {
        match node.after(e, answers[0]).next {
            Next::Finished(_) => {},
            Next::Continue(later) => {
                law_the_nodes_own_messages_go_out_on_every_port(
                    node,
                    later,
                    answers.skip(1),
                    port,
                );
            },
        }
    }
}

/// A frame is never relayed to no port at all, and as long as the routing
/// policy keeps to the ports the node has and leaves out the one the frame
/// arrived on, so does the relay.
pub proof fn law_a_relay_keeps_to_the_other_ports<'a, I: Identity, const P: usize>(
    node: &Node<I, P>,
    now_ms: u32,
    ingress_port: u8,
    routing: crate::node::Routing,
    answers: Seq<Answer<'a>>,
)
    requires
        answers.len() > 0,
        answers[0] == Answer::Routed(routing),
        !in_mask(routing.egress_mask, ingress_port),
        forall|port: u8|
            #[trigger] in_mask(routing.egress_mask, port) ==> port <= node.ports(),
    ensures
        ({
            let e = Exchange { now_ms, ingress_port, relay: 0, stage: Stage::Routing };
            concluded(node, e, answers) matches Some(outcome) ==> (outcome.owing.relay matches Some(
                mask,
            ) ==> {
                &&& mask != 0
                &&& !in_mask(mask, ingress_port)
                &&& forall|port: u8| #[trigger] in_mask(mask, port) ==> 1 <= port <= node.ports()
            })
        }),
{
    law_the_policy_alone_decides_the_relay(node, now_ms, ingress_port, routing, answers);
}

/// A node registers every type it processes and every type it answers with, so
/// that none of its own traffic is dropped for want of a registration.
pub proof fn law_a_node_registers_what_it_handles(message_type: MessageType, received: Received<'_>)
    ensures
        handled(message_type) ==> OWN_TYPES@.contains(message_type),
        promised(Stage::Looking(received)) matches Some((answer, _)) ==> OWN_TYPES@.contains(
            answer,
        ),
        OWN_TYPES@.no_duplicates(),
        OWN_TYPES@.len() <= MESSAGE_TYPES,
{
    assert(OWN_TYPES@[0] == MessageType::Heartbeat);
    assert(OWN_TYPES@[1] == MessageType::EchoRequest);
    assert(OWN_TYPES@[2] == MessageType::EchoReply);
    assert(OWN_TYPES@[3] == MessageType::SystemTimeRequest);
    assert(OWN_TYPES@[4] == MessageType::SystemTimeResponse);
    assert(OWN_TYPES@[5] == MessageType::SystemTimeSet);
    assert(OWN_TYPES@[6] == MessageType::NeighborTableRequest);
    assert(OWN_TYPES@[7] == MessageType::NeighborTableReply);
    assert(OWN_TYPES@[8] == MessageType::DeviceInfoRequest);
    assert(OWN_TYPES@[9] == MessageType::DeviceInfoReply);
}

/// A broadcast question about the time dies, where a broadcast instruction to
/// set it is honoured.
pub proof fn law_a_broadcast_set_is_honoured_and_a_broadcast_request_is_not<
    'a,
    I: Identity,
    const P: usize,
>(node: &Node<I, P>, e: Exchange<'a>, received: Received<'a>, source: u64, utc: u64)
    requires
        e.stage == Stage::Decoding(received),
        node.id() != 0,
    ensures
        ({
            let header = SystemTimeHeader { target_node_id: 0, source_node_id: source };
            let answer = Answer::Body(Decoded::SystemTime { header, utc_time_us: Some(utc) });
            &&& received.message_type == MessageType::SystemTimeRequest ==> node.after(e, answer)
                == e.ends()
            &&& received.message_type == MessageType::SystemTimeSet ==> node.after(e, answer)
                == e.goes_to(Stage::Setting(source, utc))
        }),
{
}

/// A clock that was set is acknowledged with the microseconds that were asked
/// for, to the node that asked, on the link-local multicast address.
pub proof fn law_a_set_is_answered_with_what_was_asked<'a, I: Identity, const P: usize>(
    node: &Node<I, P>,
    e: Exchange<'a>,
    target: u64,
    utc: u64,
    seq_num: u32,
)
    requires
        e.stage == Stage::Setting(target, utc),
    ensures
        ({
            let set = node.after(e, Answer::Flag(true));
            &&& set.next matches Next::Continue(sequencing)
            &&& node.after(sequencing, Answer::SeqNum(Some(seq_num))).next matches Next::Finished(
                owing,
            )
            &&& owing.reply matches Some(draft)
            &&& draft.destination == crate::frame::LINK_LOCAL_MULTICAST
            &&& draft.message_type == MessageType::SystemTimeResponse
            &&& draft.seq_num == seq_num
            &&& draft.body == (Body::SystemTime {
                header: SystemTimeHeader { target_node_id: target, source_node_id: node.id() },
                utc_time_us: utc,
            })
        }),
{
}

/// A clock that refuses leads to no answer at all.
pub proof fn law_a_clock_that_refuses_is_not_answered<'a, I: Identity, const P: usize>(
    node: &Node<I, P>,
    e: Exchange<'a>,
)
    ensures
        e.stage is Setting ==> node.after(e, Answer::Flag(false)) == e.ends(),
        e.stage is Reading ==> node.after(e, Answer::Clock(None)) == e.ends(),
{
}

/// A device-info request that cannot be sent is not left behind: it is
/// withdrawn if it was recorded, and nothing goes out either way.
pub proof fn law_an_unsendable_info_request_is_withdrawn<'a, I: Identity, const P: usize>(
    node: &Node<I, P>,
    e: Exchange<'a>,
    target: u64,
    recorded: bool,
    taken: Option<InfoRequestKind>,
)
    requires
        e.stage == Stage::Checking(target, recorded),
    ensures
        ({
            let refused = node.after(e, Answer::Flag(false));
            if recorded {
                &&& refused == e.goes_to(Stage::Withdrawing(target))
                &&& node.after(e.at(Stage::Withdrawing(target)), Answer::Kind(taken))
                    == e.at(Stage::Withdrawing(target)).ends()
            } else {
                refused == e.ends()
            }
        }),
{
}

/// A restarted neighbour is asked about under the node id its cached
/// description carries, or zero if there is none; a new one under its own.
pub proof fn law_a_restart_asks_about_the_cached_node_id<'a, I: Identity, const P: usize>(
    node: &Node<I, P>,
    e: Exchange<'a>,
    source: u64,
    heard: Heard,
    cached: Option<u64>,
)
    requires
        e.stage matches Stage::Hearing(from, _) && from == source,
        heard.evicted is None,
        heard.request_info,
    ensures
        ({
            let progress = node.after(e, Answer::Heard(heard));
            if heard.reset {
                &&& progress == e.goes_to(Stage::Recalling(source))
                &&& node.after(e.at(Stage::Recalling(source)), Answer::NodeId(cached))
                    == e.goes_to(
                    Stage::Recording(
                        match cached {
                            Some(node_id) => node_id,
                            None => 0,
                        },
                        InfoRequestKind::Cache,
                    ),
                )
            } else {
                progress == e.goes_to(Stage::Recording(source, InfoRequestKind::Cache))
            }
        }),
{
}

/// A device's description is kept only if it was asked for to be kept and
/// comes from a neighbour; one asked for to be reported is reported and not
/// kept; one nobody asked for does nothing.
pub proof fn law_a_description_is_used_as_it_was_asked_for<'a, I: Identity, const P: usize>(
    node: &Node<I, P>,
    e: Exchange<'a>,
    source: u64,
    reply: crate::message::DeviceInfoReply<'a>,
    kind: Option<InfoRequestKind>,
    neighbor: bool,
)
    requires
        e.stage == Stage::Matching(source, reply),
    ensures
        ({
            let progress = node.after(e, Answer::Kind(kind));
            match kind {
                None => progress == e.ends(),
                Some(InfoRequestKind::Report) => progress == (Progress {
                    event: Some(Event::DeviceInfo { source, reply }),
                    next: e.over(None, None),
                }),
                Some(InfoRequestKind::Cache) => {
                    &&& progress == e.goes_to(Stage::Finding(reply))
                    &&& node.after(e.at(Stage::Finding(reply)), Answer::Flag(neighbor))
                        == if neighbor {
                        e.goes_to(Stage::Storing(reply))
                    } else {
                        e.at(Stage::Finding(reply)).ends()
                    }
                },
            }
        }),
{
}

/// A link-local frame goes out once on every port of its mask that the device
/// has, stamped, and on no other; so does a global one that does not go to
/// every port at once, unstamped.
pub proof fn law_each_port_gets_one_copy(
    kind: TxKind,
    mask: u16,
    port_count: u8,
    all_ports: u16,
    port: u8,
)
    requires
        kind is LinkLocalMulticast || (kind is GlobalMulticast && mask != all_ports),
    ensures
        ({
            let copy = Transfer {
                egress: Egress::Port(port),
                stamped: kind is LinkLocalMulticast,
            };
            let plan = transfers(kind, mask, port_count, all_ports);
            &&& plan.contains(copy) <==> 1 <= port <= port_count && in_mask(mask, port)
            &&& forall|i: int, j: int|
                0 <= i < plan.len() && 0 <= j < plan.len() && plan[i] == copy && plan[j] == copy
                    ==> i == j
        }),
{
    lemma_ports_in(mask, port_count as nat);
    let ports = ports_in(mask, port_count as nat);
    let copy = Transfer { egress: Egress::Port(port), stamped: kind is LinkLocalMulticast };
    let plan = transfers(kind, mask, port_count, all_ports);
    assert forall|i: int| 0 <= i < plan.len() implies (plan[i] == copy <==> ports[i] == port) by {}
    if 1 <= port <= port_count && in_mask(mask, port) {
        let i = choose|i: int| 0 <= i < ports.len() && ports[i] == port;
        assert(plan[i] == copy);
    }
    assert forall|i: int, j: int|
        0 <= i < plan.len() && 0 <= j < plan.len() && plan[i] == copy && plan[j]
            == copy implies i == j by {
        assert(ports[i] == port && ports[j] == port);
        if i < j {
            assert(ports[i] < ports[j]);
        }
        if j < i {
            assert(ports[j] < ports[i]);
        }
    }
}

/// Everything owed goes out, and once each: the relay before the node's own
/// reply, and a re-flood once both are gone.
pub proof fn law_what_is_owed_goes_out_in_order<R, M>(
    relay: Option<R>,
    reply: Option<M>,
    forward: Option<Reflood>,
)
    ensures
        ({
            let duties = ordered(relay, reply, forward);
            &&& forall|i: int, j: int|
                0 <= i < j < duties.len() ==> (#[trigger] duties[i]).rank() < (
                #[trigger] duties[j]).rank()
            &&& forall|frame: R| #[trigger]
                duties.contains(Duty::Relay(frame)) <==> relay == Some(frame)
            &&& forall|message: M| #[trigger]
                duties.contains(Duty::Reply(message)) <==> reply == Some(message)
            &&& forall|reflood: Reflood| #[trigger]
                duties.contains(Duty::Reflood(reflood)) <==> forward == Some(reflood)
            &&& duties.len() == 0 <==> relay is None && reply is None && forward is None
        }),
{
    let duties = ordered(relay, reply, forward);
    if relay is Some {
        assert(duties[0] == Duty::<R, M>::Relay(relay->0));
    }
    if reply is Some {
        let at: int = if relay is Some { 1 } else { 0 };
        assert(duties[at] == Duty::<R, M>::Reply(reply->0));
    }
    if forward is Some {
        assert(duties[duties.len() - 1] == Duty::<R, M>::Reflood(forward->0));
    }
}

/// Successive pings count up in a sixteen-bit space of their own.
pub proof fn law_successive_pings_count_up(seq: u32)
    ensures
        seq.wrapping_add(1) as u16 == ((seq as u16) + 1) % 0x1_0000,
{
    if seq == u32::MAX {
        assert(0xFFFF_FFFFu32 as u16 == 0xFFFFu16) by (bit_vector);
    } else {
        assert(((seq + 1) as u32) as u16 == ((seq as u16) + 1) % 0x1_0000) by (bit_vector)
            requires
                seq < 0xFFFF_FFFFu32,
        ;
    }
}

/// The relay is out before the reply, and the re-flood starts last: of two
/// things owed, no reply comes before a relay, and nothing comes after a
/// re-flood.
pub proof fn law_nothing_overtakes_the_relay_or_follows_the_re_flood<R, M>(
    relay: Option<R>,
    reply: Option<M>,
    forward: Option<Reflood>,
    i: int,
    j: int,
)
    requires
        0 <= i < j < ordered(relay, reply, forward).len(),
    ensures
        ({
            let duties = ordered(relay, reply, forward);
            &&& duties[i] !is Reflood
            &&& duties[j] !is Relay
            &&& duties[i] is Reply ==> duties[j] is Reflood
        }),
{
}

/// A global frame for every port goes out once, to all of them together and
/// unstamped; one for fewer ports goes out port by port, unstamped; a frame
/// for the link goes out port by port, each copy stamped with its port; any
/// other frame does not go out. Copies go out in the order of the ports.
pub proof fn law_each_kind_of_frame_goes_out_its_own_way(
    kind: TxKind,
    mask: u16,
    port_count: u8,
    all_ports: u16,
    i: int,
    j: int,
)
    requires
        0 <= i < j < transfers(kind, mask, port_count, all_ports).len(),
    ensures
        ({
            let plan = transfers(kind, mask, port_count, all_ports);
            &&& plan[i].egress matches Egress::Port(first)
            &&& plan[j].egress matches Egress::Port(second)
            &&& first < second
            &&& in_mask(mask, first) && in_mask(mask, second) && second <= port_count
            &&& plan[i].stamped == (kind is LinkLocalMulticast)
            &&& kind !is Dropped
        }),
{
    lemma_ports_in(mask, port_count as nat);
    let ports = ports_in(mask, port_count as nat);
    let plan = transfers(kind, mask, port_count, all_ports);
    assert(plan[i].egress == Egress::Port(ports[i]));
    assert(plan[j].egress == Egress::Port(ports[j]));
    assert(ports[i] < ports[j]);
}

/// A global frame that covers every port is one transfer to all of them, with
/// no port stamped into it; nothing else is ever sent to all of them, and what
/// is neither global nor for the link is not sent.
pub proof fn law_only_a_global_frame_for_every_port_goes_to_all_at_once(
    kind: TxKind,
    mask: u16,
    port_count: u8,
    all_ports: u16,
)
    ensures
        ({
            let plan = transfers(kind, mask, port_count, all_ports);
            let at_once = Transfer { egress: Egress::AllPorts, stamped: false };
            &&& kind is GlobalMulticast && mask == all_ports ==> plan =~= seq![at_once]
            &&& !(kind is GlobalMulticast && mask == all_ports) ==> forall|i: int|
                0 <= i < plan.len() ==> (#[trigger] plan[i]).egress is Port
            &&& kind is Dropped ==> plan.len() == 0
        }),
{
}

/// A neighbour is reported as it is in the table: its id, the port it was
/// heard on, and one for online, zero for not.
pub proof fn law_a_neighbour_is_reported_as_it_is_known(neighbor: crate::node::Neighbor)
    ensures
        neighbor.reported().node_id == neighbor.node_id,
        neighbor.reported().port == neighbor.port,
        neighbor.reported().online == 1 <==> neighbor.online,
        neighbor.reported().online <= 1,
{
}

/// A string is cut only if it is too long, and then to the longest front of it
/// that fits.
pub proof fn law_a_string_is_cut_only_if_it_must_be(s: Seq<u8>, max: nat)
    ensures
        clipped(s, max).len() <= max,
        s.len() <= max ==> clipped(s, max) == s,
        s.len() > max ==> clipped(s, max) =~= s.take(max as int),
{
}

/// A ping changes nothing about a node but its ping state.
pub proof fn law_a_ping_leaves_the_rest_of_the_node_alone<I: Identity, const P: usize>(
    before: &Node<I, P>,
    after: &Node<I, P>,
)
    requires
        after.same_but_for_ping(before),
    ensures
        after.identifies() == before.identifies(),
        after.id() == before.id(),
        after.ports() == before.ports(),
        after.links() == before.links(),
{
}

/// What a node expects back was really sent, and can be checked whole: it is
/// never empty, and never longer than the node can remember.
pub proof fn law_an_expected_echo_can_be_checked<I: Identity, const P: usize>(node: &Node<I, P>)
    requires
        node.well_formed(),
    ensures
        node.expected_echo() matches Some(payload) ==> 1 <= payload.len() <= P,
{
}

/// The bytes that validating a frame rewrites are the port nibbles, the two
/// legacy port bytes and the two checksum bytes, and no others.
pub proof fn law_validation_rewrites_five_bytes(i: int)
    ensures
        rewritten(i) <==> i == 24 || i == 26 || i == 27 || i == 56 || i == 57,
{
}

/// A length that fits its field is written most significant byte first; one
/// that does not leaves the field as it was.
pub proof fn law_a_length_is_written_only_if_it_fits(frame: Seq<u8>, payload_len: nat)
    requires
        frame.len() >= 54,
    ensures
        ({
            let written = length_written(frame, payload_len);
            &&& written.len() == 2
            &&& payload_len <= 0xFFFF ==> written[0] == payload_len / 256 && written[1]
                == payload_len % 256
            &&& payload_len > 0xFFFF ==> written[0] == frame[18] && written[1] == frame[19]
        }),
{
    reveal_with_fuel(crate::bytes::be_bytes, 3);
}

} // verus!
