//! Whole conversations: everything a node asks, tells and owes for a frame, a
//! timer or a request of its own, from first to last.
//!
//! Each law here follows one kind of conversation from the frame that starts
//! it to its end. It says which questions are put, in order, and what comes of
//! the answers, in terms of what arrived and what was answered alone.
use vstd::prelude::*;

use crate::frame::{Address, LINK_LOCAL_MULTICAST};
use crate::laws::{concluded, told, Outcome};
use crate::links::in_mask;
use crate::message::{
    DeviceInfoReply, EchoReply, EchoRequest, Heartbeat, InfoRequestKind, MessageType,
    PendingRequest, SystemTimeHeader,
};
use crate::node::{
    sending, Answer, Ask, Body, ClockReading, Decoded, Draft, Event, Exchange, Heard, Next, Node,
    Owing, Received, Routing, Stage,
};
use crate::port::Identity;

verus! {

/// The questions an exchange puts while it is given these answers: its first,
/// and one more for every answer that does not end it.
pub open spec fn asked<'a, I: Identity, const P: usize>(
    node: &Node<I, P>,
    e: Exchange<'a>,
    answers: Seq<Answer<'a>>,
) -> Seq<Ask<'a>>
    decreases answers.len(),
{
    let first = seq![e.question(node.id())];
    if answers.len() == 0 {
        first
    } else {
        match node.after(e, answers[0]).next {
            Next::Finished(_) => first,
            Next::Continue(later) => first + asked(node, later, answers.skip(1)),
        }
    }
}

/// A frame arriving on a port.
pub open spec fn arriving<'a>(now_ms: u32, ingress_port: u8) -> Exchange<'a> {
    Exchange { now_ms, ingress_port, relay: 0, stage: Stage::Routing }
}

/// The answers that hand a frame up to its type's own processor, and then
/// `more`.
pub open spec fn handed_up<'a>(
    routing: Routing,
    received: Received<'a>,
    more: Seq<Answer<'a>>,
) -> Seq<Answer<'a>> {
    seq![Answer::Routed(routing), Answer::Accepted(received), Answer::Process] + more
}

/// Whether an exchange, given these answers, tells the application `events`
/// and is then over, owing `reply` and nothing else besides the relay of its
/// frame to the ports in `relay`.
pub open spec fn comes_to<'a, I: Identity, const P: usize>(
    node: &Node<I, P>,
    e: Exchange<'a>,
    answers: Seq<Answer<'a>>,
    relay: u16,
    events: Seq<Event<'a>>,
    reply: Option<Draft<'a>>,
) -> bool {
    concluded(node, e, answers) matches Some(outcome) && outcome.events =~= events
        && outcome.owing.reply == reply && outcome.owing.forward is None
        && outcome.owing.relay == if relay != 0 { Some(relay) } else { None }
}

/// The application hearing of a message that is for its type's processor.
pub open spec fn heard_of<'a>(received: Received<'a>) -> Event<'a> {
    Event::Message {
        message_type: received.message_type,
        seq_num: received.seq_num,
        source: received.source,
        payload: received.payload,
    }
}

/// What the node puts on the network when it sends a message: to `destination`,
/// on every port it has.
pub open spec fn sent<'a, I: Identity, const P: usize>(
    node: &Node<I, P>,
    destination: Address,
    message_type: MessageType,
    seq_num: u32,
    body: Body<'a>,
) -> Draft<'a> {
    Draft {
        destination,
        message_type,
        seq_num,
        body,
        mask: crate::links::port_range(node.ports()),
    }
}

/// One answer into an exchange.
proof fn lemma_step<'a, I: Identity, const P: usize>(
    node: &Node<I, P>,
    e: Exchange<'a>,
    answers: Seq<Answer<'a>>,
)
    requires
        answers.len() > 0,
    ensures
        match node.after(e, answers[0]).next {
            Next::Finished(owing) => {
                &&& asked(node, e, answers) == seq![e.question(node.id())]
                &&& concluded(node, e, answers) == Some(
                    Outcome { events: told(node.after(e, answers[0]).event), owing },
                )
            },
            Next::Continue(later) => {
                &&& asked(node, e, answers) == seq![e.question(node.id())] + asked(
                    node,
                    later,
                    answers.skip(1),
                )
                &&& concluded(node, e, answers) == match concluded(node, later, answers.skip(1)) {
                    Some(outcome) => Some(
                        Outcome {
                            events: told(node.after(e, answers[0]).event) + outcome.events,
                            ..outcome
                        },
                    ),
                    None => None,
                }
            },
        },
{
}

/// A message that is handed up puts the same three questions, whatever it is,
/// and is told to the application; the rest follows from its body.
proof fn lemma_handed_up<'a, I: Identity, const P: usize>(
    node: &Node<I, P>,
    now_ms: u32,
    port: u8,
    routing: Routing,
    received: Received<'a>,
    more: Seq<Answer<'a>>,
)
    requires
        routing.should_submit,
        received.message_type is Heartbeat || received.message_type is DeviceInfoRequest
            || received.message_type is DeviceInfoReply
            || received.message_type is NeighborTableRequest
            || received.message_type is EchoRequest || received.message_type is EchoReply
            || received.message_type is SystemTimeRequest
            || received.message_type is SystemTimeResponse
            || received.message_type is SystemTimeSet,
    ensures
        ({
            let body = Exchange {
                now_ms,
                ingress_port: port,
                relay: routing.egress_mask,
                stage: Stage::Decoding(received),
            };
            let answers = handed_up(routing, received, more);
            &&& asked(node, arriving(now_ms, port), answers).skip(1) =~= seq![
                Ask::Accept,
                Ask::Lookup {
                    message_type: received.message_type,
                    seq_num: received.seq_num,
                },
            ] + asked(node, body, more)
            &&& concluded(node, arriving(now_ms, port), answers) matches Some(whole)
                ==> concluded(node, body, more) matches Some(part) && whole.events =~= seq![
                heard_of(received)] + part.events && whole.owing == part.owing
            &&& concluded(node, body, more) is Some ==> concluded(
                node,
                arriving(now_ms, port),
                answers,
            ) is Some
        }),
{
    let answers = handed_up(routing, received, more);
    let e0 = arriving(now_ms, port);
    let e1 = Exchange { relay: routing.egress_mask, stage: Stage::Accepting, ..e0 };
    let e2 = Exchange { stage: Stage::Looking(received), ..e1 };
    lemma_step(node, e0, answers);
    lemma_step(node, e1, answers.skip(1));
    lemma_step(node, e2, answers.skip(1).skip(1));
    assert(answers.skip(1).skip(1).skip(1) =~= more);
}

/// A message is looked up under the type and the number in its own header: two
/// messages that differ in either are told apart by the registry, and a reply
/// finds the request whose number it carries.
#[verifier::spinoff_prover]
pub proof fn law_a_message_is_looked_up_by_its_own_number<'a, I: Identity, const P: usize>(
    node: &Node<I, P>,
    now_ms: u32,
    port: u8,
    routing: Routing,
    received: Received<'a>,
    other: Received<'a>,
)
    requires
        routing.should_submit,
    ensures
        ({
            let answers = |message: Received<'a>|
                seq![Answer::Routed(routing), Answer::Accepted(message)];
            let question = asked(node, arriving(now_ms, port), answers(received)).last();
            &&& question matches Ask::Lookup { message_type, seq_num } && message_type
                == received.message_type && seq_num == received.seq_num
            &&& received.seq_num != other.seq_num || received.message_type != other.message_type
                ==> question != asked(node, arriving(now_ms, port), answers(other)).last()
            &&& asked(node, arriving(now_ms, port), answers(received)).len() == 3
        }),
{
    let e0 = arriving(now_ms, port);
    let e1 = Exchange { relay: routing.egress_mask, stage: Stage::Accepting, ..e0 };
    let mine = seq![Answer::Routed(routing), Answer::Accepted(received)];
    let theirs = seq![Answer::Routed(routing), Answer::Accepted(other)];
    lemma_step(node, e0, mine);
    lemma_step(node, e1, mine.skip(1));
    lemma_step(node, e0, theirs);
    lemma_step(node, e1, theirs.skip(1));
}

/// An exchange's first question does not depend on the answers.
proof fn lemma_first_question<'a, I: Identity, const P: usize>(
    node: &Node<I, P>,
    e: Exchange<'a>,
    answers: Seq<Answer<'a>>,
)
    ensures
        asked(node, e, answers).len() > 0,
        asked(node, e, answers)[0] == e.question(node.id()),
{
}

/// The routing policy is asked about the one port the frame arrived on, and a
/// frame the policy keeps from this node is asked about no further.
#[verifier::spinoff_prover]
pub proof fn law_the_policy_is_asked_about_the_port_of_arrival<'a, I: Identity, const P: usize>(
    node: &Node<I, P>,
    now_ms: u32,
    port: u8,
    routing: Routing,
    policy_port: u8,
)
    ensures
        ({
            let first = asked(node, arriving(now_ms, port), seq![Answer::Routed(routing)]);
            &&& first[0] matches Ask::Route { ingress_mask } && (in_mask(ingress_mask, policy_port)
                <==> policy_port == port && 1 <= port <= 16)
            &&& first[0] == asked(node, arriving(now_ms, port), seq![])[0]
            &&& routing.should_submit ==> first.len() == 2 && first[1] == Ask::Accept
            &&& !routing.should_submit ==> first.len() == 1
        }),
{
    let answers = seq![Answer::Routed(routing)];
    let e0 = arriving(now_ms, port);
    let e1 = Exchange { relay: routing.egress_mask, stage: Stage::Accepting, ..e0 };
    lemma_step(node, e0, answers);
    assert(answers.skip(1) =~= seq![]);
    if 1 <= policy_port <= 16 && 1 <= port <= 16 {
        let a = (policy_port - 1) as u16;
        let b = (port - 1) as u16;
        assert((1u16 << b) & (1u16 << a) != 0 <==> a == b) by (bit_vector)
            requires
                a < 16,
                b < 16,
        ;
    }
    assert(forall|a: u16| #[trigger] (0u16 & a) == 0) by (bit_vector);
}

/// What the registry says of a message decides who gets it. One that answers a
/// request goes to the application with the request it answers, and to nobody
/// else; one of an unregistered type goes nowhere; any other is told to the
/// application, and its body is then read if the node has a use for its type.
#[verifier::spinoff_prover]
pub proof fn law_the_registry_decides_who_gets_a_message<'a, I: Identity, const P: usize>(
    node: &Node<I, P>,
    now_ms: u32,
    port: u8,
    routing: Routing,
    received: Received<'a>,
    request: PendingRequest,
)
    requires
        routing.should_submit,
    ensures
        ({
            let answers = |last: Answer<'a>|
                seq![Answer::Routed(routing), Answer::Accepted(received), last];
            let e = arriving(now_ms, port);
            let relay = routing.egress_mask;
            &&& comes_to(
                node,
                e,
                answers(Answer::SequencedReply(request)),
                relay,
                seq![
                    Event::Reply {
                        request,
                        message_type: received.message_type,
                        source: received.source,
                        payload: received.payload,
                    },
                ],
                None,
            )
            &&& comes_to(node, e, answers(Answer::Unregistered), relay, seq![], None)
            &&& match received.message_type {
                MessageType::Heartbeat
                | MessageType::EchoRequest
                | MessageType::EchoReply
                | MessageType::DeviceInfoRequest
                | MessageType::DeviceInfoReply
                | MessageType::NeighborTableRequest
                | MessageType::SystemTimeRequest
                | MessageType::SystemTimeResponse
                | MessageType::SystemTimeSet => {
                    &&& asked(node, e, answers(Answer::Process)).last() == (Ask::Decode {
                        message_type: received.message_type,
                    })
                    &&& comes_to(
                        node,
                        e,
                        handed_up(routing, received, seq![Answer::Malformed]),
                        relay,
                        seq![heard_of(received)],
                        None,
                    )
                },
                _ => comes_to(
                    node,
                    e,
                    answers(Answer::Process),
                    relay,
                    seq![heard_of(received)],
                    None,
                ),
            }
        }),
{
    let e0 = arriving(now_ms, port);
    let e1 = Exchange { relay: routing.egress_mask, stage: Stage::Accepting, ..e0 };
    let e2 = Exchange { stage: Stage::Looking(received), ..e1 };
    let e3 = Exchange { stage: Stage::Decoding(received), ..e1 };
    let answered = seq![
        Answer::Routed(routing),
        Answer::Accepted(received),
        Answer::SequencedReply(request),
    ];
    lemma_step(node, e0, answered);
    lemma_step(node, e1, answered.skip(1));
    lemma_step(node, e2, answered.skip(1).skip(1));
    let dropped = seq![
        Answer::Routed(routing),
        Answer::Accepted(received),
        Answer::Unregistered,
    ];
    lemma_step(node, e0, dropped);
    lemma_step(node, e1, dropped.skip(1));
    lemma_step(node, e2, dropped.skip(1).skip(1));
    let passed = seq![Answer::Routed(routing), Answer::Accepted(received), Answer::Process];
    lemma_step(node, e0, passed);
    lemma_step(node, e1, passed.skip(1));
    lemma_step(node, e2, passed.skip(1).skip(1));
    let damaged = handed_up(routing, received, seq![Answer::Malformed]);
    lemma_step(node, e0, damaged);
    lemma_step(node, e1, damaged.skip(1));
    lemma_step(node, e2, damaged.skip(1).skip(1));
    lemma_step(node, e3, damaged.skip(1).skip(1).skip(1));
}

/// A heartbeat is put to the neighbour table as it arrived: from the node in the
/// frame's source address, on the port the frame came in on, at the time it came
/// in. Where the table wants nothing, nothing more happens.
#[verifier::spinoff_prover]
pub proof fn law_a_heartbeat_is_heard_on_the_port_it_arrived_on<'a, I: Identity, const P: usize>(
    node: &Node<I, P>,
    now_ms: u32,
    port: u8,
    routing: Routing,
    received: Received<'a>,
    heartbeat: Heartbeat,
    heard: Heard,
)
    requires
        routing.should_submit,
        received.message_type is Heartbeat,
        heard.evicted is None,
        !heard.request_info,
    ensures
        ({
            let answers = handed_up(routing, received, seq![Answer::Body(Decoded::Heartbeat(heartbeat)), Answer::Heard(heard)]);
            &&& asked(node, arriving(now_ms, port), answers).skip(1) =~= seq![
                Ask::Accept,
                Ask::Lookup {
                    message_type: received.message_type,
                    seq_num: received.seq_num,
                },
                Ask::Decode { message_type: received.message_type },
                Ask::Hear { now_ms, source: received.source, port, heartbeat },
            ]
            &&& comes_to(
                node,
                arriving(now_ms, port),
                answers,
                routing.egress_mask,
                seq![heard_of(received)],
                None,
            )
        }),
{
    let more = seq![Answer::Body(Decoded::Heartbeat(heartbeat)), Answer::Heard(heard)];
    lemma_handed_up(node, now_ms, port, routing, received, more);
    let e0 = Exchange {
        now_ms,
        ingress_port: port,
        relay: routing.egress_mask,
        stage: Stage::Decoding(received),
    };
    lemma_step(node, e0, more);
    let e1 = Exchange { stage: Stage::Hearing(received.source, heartbeat), ..e0 };
    lemma_step(node, e1, more.skip(1));
}

/// A neighbour the table wants described is asked for its description: the
/// request is recorded under the node's own id, to be kept, and goes out on the
/// link naming that node.
#[verifier::spinoff_prover]
pub proof fn law_a_new_neighbour_is_asked_to_describe_itself<'a, I: Identity, const P: usize>(
    node: &Node<I, P>,
    now_ms: u32,
    port: u8,
    routing: Routing,
    received: Received<'a>,
    heartbeat: Heartbeat,
    heard: Heard,
    recorded: bool,
    seq_num: u32,
)
    requires
        routing.should_submit,
        received.message_type is Heartbeat,
        heard.evicted is None,
        heard.request_info,
        !heard.reset,
    ensures
        ({
            let answers = handed_up(routing, received, seq![
                Answer::Body(Decoded::Heartbeat(heartbeat)),
                Answer::Heard(heard),
                Answer::Flag(recorded),
                Answer::Flag(true),
                Answer::SeqNum(Some(seq_num)),
            ]);
            &&& asked(node, arriving(now_ms, port), answers).skip(1) =~= seq![
                Ask::Accept,
                Ask::Lookup {
                    message_type: received.message_type,
                    seq_num: received.seq_num,
                },
                Ask::Decode { message_type: received.message_type },
                Ask::Hear { now_ms, source: received.source, port, heartbeat },
                Ask::Record { node_id: received.source, kind: InfoRequestKind::Cache },
                Ask::Registered { message_type: MessageType::DeviceInfoRequest },
                Ask::Sequence {
                    now_ms,
                    message_type: MessageType::DeviceInfoRequest,
                    reply_seq_num: 0,
                },
            ]
            &&& comes_to(
                node,
                arriving(now_ms, port),
                answers,
                routing.egress_mask,
                seq![heard_of(received)],
                Some(
                    sent(
                        node,
                        LINK_LOCAL_MULTICAST,
                        MessageType::DeviceInfoRequest,
                        seq_num,
                        Body::Target(received.source),
                    ),
                ),
            )
        }),
{
    let more = seq![
        Answer::Body(Decoded::Heartbeat(heartbeat)),
        Answer::Heard(heard),
        Answer::Flag(recorded),
        Answer::Flag(true),
        Answer::SeqNum(Some(seq_num)),
    ];
    lemma_handed_up(node, now_ms, port, routing, received, more);
    let e0 = Exchange {
        now_ms,
        ingress_port: port,
        relay: routing.egress_mask,
        stage: Stage::Decoding(received),
    };
    lemma_step(node, e0, more);
    let e1 = Exchange { stage: Stage::Hearing(received.source, heartbeat), ..e0 };
    lemma_step(node, e1, more.skip(1));
    let e2 = Exchange { stage: Stage::Recording(received.source, InfoRequestKind::Cache), ..e0 };
    lemma_step(node, e2, more.skip(1).skip(1));
    let e3 = Exchange { stage: Stage::Checking(received.source, recorded), ..e0 };
    lemma_step(node, e3, more.skip(1).skip(1).skip(1));
    let e4 = Exchange { stage: Stage::Sequencing {
            destination: LINK_LOCAL_MULTICAST,
            message_type: MessageType::DeviceInfoRequest,
            reply_seq_num: 0,
            body: Body::Target(received.source),
        }, ..e0 };
    lemma_step(node, e4, more.skip(1).skip(1).skip(1).skip(1));
}

/// A neighbour that restarted is looked up first, and asked about under the node
/// id its old description carries, or under zero if there is none.
#[verifier::spinoff_prover]
pub proof fn law_a_restarted_neighbour_is_asked_about_as_it_is_known<'a, I: Identity, const P: usize>(
    node: &Node<I, P>,
    now_ms: u32,
    port: u8,
    routing: Routing,
    received: Received<'a>,
    heartbeat: Heartbeat,
    heard: Heard,
    cached: Option<u64>,
    recorded: bool,
    seq_num: u32,
)
    requires
        routing.should_submit,
        received.message_type is Heartbeat,
        heard.evicted is None,
        heard.request_info,
        heard.reset,
    ensures
        ({
            let known = match cached {
                Some(node_id) => node_id,
                None => 0,
            };
            let answers = handed_up(routing, received, seq![
                Answer::Body(Decoded::Heartbeat(heartbeat)),
                Answer::Heard(heard),
                Answer::NodeId(cached),
                Answer::Flag(recorded),
                Answer::Flag(true),
                Answer::SeqNum(Some(seq_num)),
            ]);
            &&& asked(node, arriving(now_ms, port), answers).skip(1) =~= seq![
                Ask::Accept,
                Ask::Lookup {
                    message_type: received.message_type,
                    seq_num: received.seq_num,
                },
                Ask::Decode { message_type: received.message_type },
                Ask::Hear { now_ms, source: received.source, port, heartbeat },
                Ask::Recall { node_id: received.source },
                Ask::Record { node_id: known, kind: InfoRequestKind::Cache },
                Ask::Registered { message_type: MessageType::DeviceInfoRequest },
                Ask::Sequence {
                    now_ms,
                    message_type: MessageType::DeviceInfoRequest,
                    reply_seq_num: 0,
                },
            ]
            &&& comes_to(
                node,
                arriving(now_ms, port),
                answers,
                routing.egress_mask,
                seq![heard_of(received)],
                Some(
                    sent(
                        node,
                        LINK_LOCAL_MULTICAST,
                        MessageType::DeviceInfoRequest,
                        seq_num,
                        Body::Target(known),
                    ),
                ),
            )
        }),
{
    let known = match cached {
        Some(node_id) => node_id,
        None => 0u64,
    };
    let more = seq![
        Answer::Body(Decoded::Heartbeat(heartbeat)),
        Answer::Heard(heard),
        Answer::NodeId(cached),
        Answer::Flag(recorded),
        Answer::Flag(true),
        Answer::SeqNum(Some(seq_num)),
    ];
    lemma_handed_up(node, now_ms, port, routing, received, more);
    let e0 = Exchange {
        now_ms,
        ingress_port: port,
        relay: routing.egress_mask,
        stage: Stage::Decoding(received),
    };
    lemma_step(node, e0, more);
    let e1 = Exchange { stage: Stage::Hearing(received.source, heartbeat), ..e0 };
    lemma_step(node, e1, more.skip(1));
    let e2 = Exchange { stage: Stage::Recalling(received.source), ..e0 };
    lemma_step(node, e2, more.skip(1).skip(1));
    let e3 = Exchange { stage: Stage::Recording(known, InfoRequestKind::Cache), ..e0 };
    lemma_step(node, e3, more.skip(1).skip(1).skip(1));
    let e4 = Exchange { stage: Stage::Checking(known, recorded), ..e0 };
    lemma_step(node, e4, more.skip(1).skip(1).skip(1).skip(1));
    let e5 = Exchange { stage: Stage::Sequencing {
            destination: LINK_LOCAL_MULTICAST,
            message_type: MessageType::DeviceInfoRequest,
            reply_seq_num: 0,
            body: Body::Target(known),
        }, ..e0 };
    lemma_step(node, e5, more.skip(1).skip(1).skip(1).skip(1).skip(1));
}

/// A neighbour that had to make room is forgotten, under its own id, and nothing
/// else changes: the conversation goes on as if there had been room.
#[verifier::spinoff_prover]
pub proof fn law_an_evicted_neighbour_is_forgotten<'a, I: Identity, const P: usize>(
    node: &Node<I, P>,
    now_ms: u32,
    port: u8,
    routing: Routing,
    received: Received<'a>,
    heartbeat: Heartbeat,
    heard: Heard,
    evicted: u64,
    more: Seq<Answer<'a>>,
)
    requires
        routing.should_submit,
        received.message_type is Heartbeat,
        heard.evicted == Some(evicted),
    ensures
        ({
            let beat = Answer::Body(Decoded::Heartbeat(heartbeat));
            let roomy = Heard { evicted: None, ..heard };
            let e = arriving(now_ms, port);
            let crowded = handed_up(
                routing,
                received,
                seq![beat, Answer::Heard(heard), Answer::Done] + more,
            );
            let plain = handed_up(routing, received, seq![beat, Answer::Heard(roomy)] + more);
            &&& asked(node, e, crowded)[5] == (Ask::Forget { node_id: evicted })
            &&& asked(node, e, crowded).remove(5) =~= asked(node, e, plain)
            &&& concluded(node, e, crowded) == concluded(node, e, plain)
        }),
{
    let beat = Answer::Body(Decoded::Heartbeat(heartbeat));
    let roomy = Heard { evicted: None, ..heard };
    let e = arriving(now_ms, port);
    let first = seq![beat, Answer::Heard(heard), Answer::Done] + more;
    let second = seq![beat, Answer::Heard(roomy)] + more;
    lemma_handed_up(node, now_ms, port, routing, received, first);
    lemma_handed_up(node, now_ms, port, routing, received, second);
    let e0 = Exchange {
        now_ms,
        ingress_port: port,
        relay: routing.egress_mask,
        stage: Stage::Decoding(received),
    };
    let e1 = Exchange { stage: Stage::Hearing(received.source, heartbeat), ..e0 };
    let e2 = Exchange { stage: Stage::Forgetting(received.source, evicted, heard), ..e0 };
    lemma_step(node, e0, first);
    lemma_step(node, e1, first.skip(1));
    lemma_step(node, e2, first.skip(1).skip(1));
    lemma_step(node, e0, second);
    lemma_step(node, e1, second.skip(1));
    assert(first.skip(1).skip(1).skip(1) =~= more);
    assert(second.skip(1).skip(1) =~= more);
    let crowded = handed_up(routing, received, first);
    let plain = handed_up(routing, received, second);
    lemma_first_question(node, e, crowded);
    lemma_first_question(node, e, plain);
    let a = asked(node, e, crowded);
    let b = asked(node, e, plain);
    assert(a.skip(1)[4] == a[5]);
    assert(a =~= seq![a[0]] + a.skip(1));
    assert(b =~= seq![b[0]] + b.skip(1));
    assert(a.skip(1).remove(4) =~= b.skip(1));
    if concluded(node, e, crowded) is Some {
        assert(concluded(node, e, crowded)->0.events =~= concluded(node, e, plain)->0.events);
    }
}

/// A node that is asked for its description, by its own id or along with every other
/// node, answers to the address it was asked at, echoing the number it was asked
/// with. A node that is not asked does not answer.
#[verifier::spinoff_prover]
pub proof fn law_a_device_info_request_is_answered_with_our_description<'a, I: Identity, const P: usize>(
    node: &Node<I, P>,
    now_ms: u32,
    port: u8,
    routing: Routing,
    received: Received<'a>,
    target: u64,
    seq_num: u32,
)
    requires
        routing.should_submit,
        received.message_type is DeviceInfoRequest,
    ensures
        target == 0 || target == node.id() ==> ({
            let answers = handed_up(routing, received, seq![
                Answer::Body(Decoded::Target(target)),
                Answer::SeqNum(Some(seq_num)),
            ]);
            &&& asked(node, arriving(now_ms, port), answers).skip(1) =~= seq![
                Ask::Accept,
                Ask::Lookup {
                    message_type: received.message_type,
                    seq_num: received.seq_num,
                },
                Ask::Decode { message_type: received.message_type },
                Ask::Sequence { now_ms, message_type: MessageType::DeviceInfoReply, reply_seq_num: received.seq_num },
            ]
            &&& comes_to(
                node,
                arriving(now_ms, port),
                answers,
                routing.egress_mask,
                seq![heard_of(received)],
                Some(
                    sent(
                        node,
                        received.destination,
                        MessageType::DeviceInfoReply,
                        seq_num,
                        Body::DeviceInfo,
                    ),
                ),
            )
        }),
        target != 0 && target != node.id() ==> ({
            let answers = handed_up(routing, received, seq![Answer::Body(Decoded::Target(target))]);
            &&& asked(node, arriving(now_ms, port), answers).skip(1) =~= seq![
                Ask::Accept,
                Ask::Lookup {
                    message_type: received.message_type,
                    seq_num: received.seq_num,
                },
                Ask::Decode { message_type: received.message_type },
            ]
            &&& comes_to(
                node,
                arriving(now_ms, port),
                answers,
                routing.egress_mask,
                seq![heard_of(received)],
                None,
            )
        }),
{
    if target == 0 || target == node.id() {
    let more = seq![Answer::Body(Decoded::Target(target)), Answer::SeqNum(Some(seq_num))];
    lemma_handed_up(node, now_ms, port, routing, received, more);
    let e0 = Exchange {
        now_ms,
        ingress_port: port,
        relay: routing.egress_mask,
        stage: Stage::Decoding(received),
    };
    lemma_step(node, e0, more);
    let e1 = Exchange { stage: Stage::Sequencing {
            destination: received.destination,
            message_type: MessageType::DeviceInfoReply,
            reply_seq_num: received.seq_num,
            body: Body::DeviceInfo,
        }, ..e0 };
    lemma_step(node, e1, more.skip(1));
    } else {
    let more = seq![Answer::Body(Decoded::Target(target))];
    lemma_handed_up(node, now_ms, port, routing, received, more);
    let e0 = Exchange {
        now_ms,
        ingress_port: port,
        relay: routing.egress_mask,
        stage: Stage::Decoding(received),
    };
    lemma_step(node, e0, more);
    }
}

/// A node that is asked for its ports and neighbours, by its own id or along with every other
/// node, answers to the address it was asked at, echoing the number it was asked
/// with. A node that is not asked does not answer.
#[verifier::spinoff_prover]
pub proof fn law_a_neighbour_table_request_is_answered_with_our_neighbours<'a, I: Identity, const P: usize>(
    node: &Node<I, P>,
    now_ms: u32,
    port: u8,
    routing: Routing,
    received: Received<'a>,
    target: u64,
    seq_num: u32,
)
    requires
        routing.should_submit,
        received.message_type is NeighborTableRequest,
    ensures
        target == 0 || target == node.id() ==> ({
            let answers = handed_up(routing, received, seq![
                Answer::Body(Decoded::Target(target)),
                Answer::SeqNum(Some(seq_num)),
            ]);
            &&& asked(node, arriving(now_ms, port), answers).skip(1) =~= seq![
                Ask::Accept,
                Ask::Lookup {
                    message_type: received.message_type,
                    seq_num: received.seq_num,
                },
                Ask::Decode { message_type: received.message_type },
                Ask::Sequence { now_ms, message_type: MessageType::NeighborTableReply, reply_seq_num: received.seq_num },
            ]
            &&& comes_to(
                node,
                arriving(now_ms, port),
                answers,
                routing.egress_mask,
                seq![heard_of(received)],
                Some(
                    sent(
                        node,
                        received.destination,
                        MessageType::NeighborTableReply,
                        seq_num,
                        Body::NeighborTable,
                    ),
                ),
            )
        }),
        target != 0 && target != node.id() ==> ({
            let answers = handed_up(routing, received, seq![Answer::Body(Decoded::Target(target))]);
            &&& asked(node, arriving(now_ms, port), answers).skip(1) =~= seq![
                Ask::Accept,
                Ask::Lookup {
                    message_type: received.message_type,
                    seq_num: received.seq_num,
                },
                Ask::Decode { message_type: received.message_type },
            ]
            &&& comes_to(
                node,
                arriving(now_ms, port),
                answers,
                routing.egress_mask,
                seq![heard_of(received)],
                None,
            )
        }),
{
    if target == 0 || target == node.id() {
    let more = seq![Answer::Body(Decoded::Target(target)), Answer::SeqNum(Some(seq_num))];
    lemma_handed_up(node, now_ms, port, routing, received, more);
    let e0 = Exchange {
        now_ms,
        ingress_port: port,
        relay: routing.egress_mask,
        stage: Stage::Decoding(received),
    };
    lemma_step(node, e0, more);
    let e1 = Exchange { stage: Stage::Sequencing {
            destination: received.destination,
            message_type: MessageType::NeighborTableReply,
            reply_seq_num: received.seq_num,
            body: Body::NeighborTable,
        }, ..e0 };
    lemma_step(node, e1, more.skip(1));
    } else {
    let more = seq![Answer::Body(Decoded::Target(target))];
    lemma_handed_up(node, now_ms, port, routing, received, more);
    let e0 = Exchange {
        now_ms,
        ingress_port: port,
        relay: routing.egress_mask,
        stage: Stage::Decoding(received),
    };
    lemma_step(node, e0, more);
    }
}

/// A ping for this node, by its own id or along with every other node, is
/// answered in this node's name, whatever name it was pinged under, with the
/// ping's own id, number and payload. A ping for another node is not answered.
#[verifier::spinoff_prover]
pub proof fn law_a_ping_is_answered_in_our_own_name<'a, I: Identity, const P: usize>(
    node: &Node<I, P>,
    now_ms: u32,
    port: u8,
    routing: Routing,
    received: Received<'a>,
    request: EchoRequest<'a>,
    seq_num: u32,
)
    requires
        routing.should_submit,
        received.message_type is EchoRequest,
    ensures
        request.target_node_id == 0 || request.target_node_id == node.id() ==> ({
            let answers = handed_up(routing, received, seq![
                Answer::Body(Decoded::EchoRequest(request)),
                Answer::SeqNum(Some(seq_num)),
            ]);
            &&& asked(node, arriving(now_ms, port), answers).skip(1) =~= seq![
                Ask::Accept,
                Ask::Lookup {
                    message_type: received.message_type,
                    seq_num: received.seq_num,
                },
                Ask::Decode { message_type: received.message_type },
                Ask::Sequence { now_ms, message_type: MessageType::EchoReply, reply_seq_num: request.seq_num as u32 },
            ]
            &&& comes_to(
                node,
                arriving(now_ms, port),
                answers,
                routing.egress_mask,
                seq![heard_of(received)],
                Some(
                    sent(
                        node,
                        received.destination,
                        MessageType::EchoReply,
                        seq_num,
                        Body::EchoReply(
                            EchoReply {
                                node_id: node.id(),
                                id: request.id,
                                seq_num: request.seq_num,
                                payload: request.payload,
                            },
                        ),
                    ),
                ),
            )
        }),
        request.target_node_id != 0 && request.target_node_id != node.id() ==> ({
            let answers = handed_up(routing, received, seq![Answer::Body(Decoded::EchoRequest(request))]);
            &&& asked(node, arriving(now_ms, port), answers).skip(1) =~= seq![
                Ask::Accept,
                Ask::Lookup {
                    message_type: received.message_type,
                    seq_num: received.seq_num,
                },
                Ask::Decode { message_type: received.message_type },
            ]
            &&& comes_to(
                node,
                arriving(now_ms, port),
                answers,
                routing.egress_mask,
                seq![heard_of(received)],
                None,
            )
        }),
{
    if request.target_node_id == 0 || request.target_node_id == node.id() {
    let more = seq![Answer::Body(Decoded::EchoRequest(request)), Answer::SeqNum(Some(seq_num))];
    lemma_handed_up(node, now_ms, port, routing, received, more);
    let e0 = Exchange {
        now_ms,
        ingress_port: port,
        relay: routing.egress_mask,
        stage: Stage::Decoding(received),
    };
    lemma_step(node, e0, more);
    let e1 = Exchange { stage: Stage::Sequencing {
            destination: received.destination,
            message_type: MessageType::EchoReply,
            reply_seq_num: request.seq_num as u32,
            body: Body::EchoReply(
                            EchoReply {
                                node_id: node.id(),
                                id: request.id,
                                seq_num: request.seq_num,
                                payload: request.payload,
                            },
                        ),
        }, ..e0 };
    lemma_step(node, e1, more.skip(1));
    } else {
    let more = seq![Answer::Body(Decoded::EchoRequest(request))];
    lemma_handed_up(node, now_ms, port, routing, received, more);
    let e0 = Exchange {
        now_ms,
        ingress_port: port,
        relay: routing.egress_mask,
        stage: Stage::Decoding(received),
    };
    lemma_step(node, e0, more);
    }
}

/// An echo is held against the ping under the low sixteen bits of this node's id.
/// One that answers the ping is told to the application, with where it came from
/// and how long it took; one that does not is told as a message and no more.
#[verifier::spinoff_prover]
pub proof fn law_an_echo_is_told_with_the_time_it_took<'a, I: Identity, const P: usize>(
    node: &Node<I, P>,
    now_ms: u32,
    port: u8,
    routing: Routing,
    received: Received<'a>,
    reply: EchoReply<'a>,
    took_ms: u32,
)
    requires
        routing.should_submit,
        received.message_type is EchoReply,
        (node.pinged_at() + took_ms) % 0x1_0000_0000 == now_ms,
    ensures
        ({
            let low = (node.id() % 0x1_0000) as u16;
            let answers = handed_up(routing, received, seq![
                Answer::Body(Decoded::EchoReply(reply)),
                Answer::Flag(true),
            ]);
            &&& asked(node, arriving(now_ms, port), answers).skip(1) =~= seq![
                Ask::Accept,
                Ask::Lookup {
                    message_type: received.message_type,
                    seq_num: received.seq_num,
                },
                Ask::Decode { message_type: received.message_type },
                Ask::Match { our_id: low, reply },
            ]
            &&& comes_to(
                node,
                arriving(now_ms, port),
                answers,
                routing.egress_mask,
                seq![
                    heard_of(received),
                    Event::EchoReply { source: received.source, reply, round_trip_ms: took_ms },
                ],
                None,
            )
        }),
        ({
            let low = (node.id() % 0x1_0000) as u16;
            let answers = handed_up(routing, received, seq![
                Answer::Body(Decoded::EchoReply(reply)),
                Answer::Flag(false),
            ]);
            &&& asked(node, arriving(now_ms, port), answers).skip(1) =~= seq![
                Ask::Accept,
                Ask::Lookup {
                    message_type: received.message_type,
                    seq_num: received.seq_num,
                },
                Ask::Decode { message_type: received.message_type },
                Ask::Match { our_id: low, reply },
            ]
            &&& comes_to(
                node,
                arriving(now_ms, port),
                answers,
                routing.egress_mask,
                seq![heard_of(received)],
                None,
            )
        }),
{
    let id = node.id();
    assert(id as u16 == (id % 0x1_0000) as u16) by (bit_vector);
    let right = seq![Answer::Body(Decoded::EchoReply(reply)), Answer::Flag(true)];
    lemma_handed_up(node, now_ms, port, routing, received, right);
    let r0 = Exchange {
        now_ms,
        ingress_port: port,
        relay: routing.egress_mask,
        stage: Stage::Decoding(received),
    };
    lemma_step(node, r0, right);
    let r1 = Exchange { stage: Stage::Comparing(received.source, reply), ..r0 };
    lemma_step(node, r1, right.skip(1));
    let wrong = seq![Answer::Body(Decoded::EchoReply(reply)), Answer::Flag(false)];
    lemma_handed_up(node, now_ms, port, routing, received, wrong);
    let w0 = Exchange {
        now_ms,
        ingress_port: port,
        relay: routing.egress_mask,
        stage: Stage::Decoding(received),
    };
    lemma_step(node, w0, wrong);
    let w1 = Exchange { stage: Stage::Comparing(received.source, reply), ..w0 };
    lemma_step(node, w1, wrong.skip(1));
}

/// A device's description is matched to the request for that very device, and
/// used as the request says: reported to the application with where it came from,
/// or kept as it is if the device is a neighbour. One that nobody asked for is
/// told as a message and no more.
#[verifier::spinoff_prover]
pub proof fn law_a_description_goes_where_it_was_asked_for<'a, I: Identity, const P: usize>(
    node: &Node<I, P>,
    now_ms: u32,
    port: u8,
    routing: Routing,
    received: Received<'a>,
    reply: DeviceInfoReply<'a>,
)
    requires
        routing.should_submit,
        received.message_type is DeviceInfoReply,
    ensures
        ({
            let answers = handed_up(routing, received, seq![
                Answer::Body(Decoded::DeviceInfo(reply)),
                Answer::Kind(None),
            ]);
            &&& asked(node, arriving(now_ms, port), answers).skip(1) =~= seq![
                Ask::Accept,
                Ask::Lookup {
                    message_type: received.message_type,
                    seq_num: received.seq_num,
                },
                Ask::Decode { message_type: received.message_type },
                Ask::Take { node_id: reply.info.node_id },
            ]
            &&& comes_to(
                node,
                arriving(now_ms, port),
                answers,
                routing.egress_mask,
                seq![heard_of(received)],
                None,
            )
        }),
        ({
            let answers = handed_up(routing, received, seq![
                Answer::Body(Decoded::DeviceInfo(reply)),
                Answer::Kind(Some(InfoRequestKind::Report)),
            ]);
            &&& asked(node, arriving(now_ms, port), answers).skip(1) =~= seq![
                Ask::Accept,
                Ask::Lookup {
                    message_type: received.message_type,
                    seq_num: received.seq_num,
                },
                Ask::Decode { message_type: received.message_type },
                Ask::Take { node_id: reply.info.node_id },
            ]
            &&& comes_to(
                node,
                arriving(now_ms, port),
                answers,
                routing.egress_mask,
                seq![
                    heard_of(received),
                    Event::DeviceInfo { source: received.source, reply },
                ],
                None,
            )
        }),
        ({
            let answers = handed_up(routing, received, seq![
                Answer::Body(Decoded::DeviceInfo(reply)),
                Answer::Kind(Some(InfoRequestKind::Cache)),
                Answer::Flag(true),
                Answer::Done,
            ]);
            &&& asked(node, arriving(now_ms, port), answers).skip(1) =~= seq![
                Ask::Accept,
                Ask::Lookup {
                    message_type: received.message_type,
                    seq_num: received.seq_num,
                },
                Ask::Decode { message_type: received.message_type },
                Ask::Take { node_id: reply.info.node_id },
                Ask::Find { node_id: reply.info.node_id },
                Ask::Store { reply },
            ]
            &&& comes_to(
                node,
                arriving(now_ms, port),
                answers,
                routing.egress_mask,
                seq![heard_of(received)],
                None,
            )
        }),
        ({
            let answers = handed_up(routing, received, seq![
                Answer::Body(Decoded::DeviceInfo(reply)),
                Answer::Kind(Some(InfoRequestKind::Cache)),
                Answer::Flag(false),
            ]);
            &&& asked(node, arriving(now_ms, port), answers).skip(1) =~= seq![
                Ask::Accept,
                Ask::Lookup {
                    message_type: received.message_type,
                    seq_num: received.seq_num,
                },
                Ask::Decode { message_type: received.message_type },
                Ask::Take { node_id: reply.info.node_id },
                Ask::Find { node_id: reply.info.node_id },
            ]
            &&& comes_to(
                node,
                arriving(now_ms, port),
                answers,
                routing.egress_mask,
                seq![heard_of(received)],
                None,
            )
        }),
{
    let unasked = seq![Answer::Body(Decoded::DeviceInfo(reply)), Answer::Kind(None)];
    lemma_handed_up(node, now_ms, port, routing, received, unasked);
    let u0 = Exchange {
        now_ms,
        ingress_port: port,
        relay: routing.egress_mask,
        stage: Stage::Decoding(received),
    };
    lemma_step(node, u0, unasked);
    let u1 = Exchange { stage: Stage::Matching(received.source, reply), ..u0 };
    lemma_step(node, u1, unasked.skip(1));
    let reported = seq![Answer::Body(Decoded::DeviceInfo(reply)), Answer::Kind(Some(InfoRequestKind::Report))];
    lemma_handed_up(node, now_ms, port, routing, received, reported);
    let r0 = Exchange {
        now_ms,
        ingress_port: port,
        relay: routing.egress_mask,
        stage: Stage::Decoding(received),
    };
    lemma_step(node, r0, reported);
    let r1 = Exchange { stage: Stage::Matching(received.source, reply), ..r0 };
    lemma_step(node, r1, reported.skip(1));
    let kept = seq![
        Answer::Body(Decoded::DeviceInfo(reply)),
        Answer::Kind(Some(InfoRequestKind::Cache)),
        Answer::Flag(true),
        Answer::Done,
    ];
    lemma_handed_up(node, now_ms, port, routing, received, kept);
    let k0 = Exchange {
        now_ms,
        ingress_port: port,
        relay: routing.egress_mask,
        stage: Stage::Decoding(received),
    };
    lemma_step(node, k0, kept);
    let k1 = Exchange { stage: Stage::Matching(received.source, reply), ..k0 };
    lemma_step(node, k1, kept.skip(1));
    let k2 = Exchange { stage: Stage::Finding(reply), ..k0 };
    lemma_step(node, k2, kept.skip(1).skip(1));
    let k3 = Exchange { stage: Stage::Storing(reply), ..k0 };
    lemma_step(node, k3, kept.skip(1).skip(1).skip(1));
    let strange = seq![
        Answer::Body(Decoded::DeviceInfo(reply)),
        Answer::Kind(Some(InfoRequestKind::Cache)),
        Answer::Flag(false),
    ];
    lemma_handed_up(node, now_ms, port, routing, received, strange);
    let s0 = Exchange {
        now_ms,
        ingress_port: port,
        relay: routing.egress_mask,
        stage: Stage::Decoding(received),
    };
    lemma_step(node, s0, strange);
    let s1 = Exchange { stage: Stage::Matching(received.source, reply), ..s0 };
    lemma_step(node, s1, strange.skip(1));
    let s2 = Exchange { stage: Stage::Finding(reply), ..s0 };
    lemma_step(node, s2, strange.skip(1).skip(1));
}

/// A node asked for the time by its own id reads its clock and answers the node
/// that asked, the one the request's body names, whoever passed the request on.
/// The answer says what the clock reads, to the millisecond, in this node's name.
/// A clock that cannot be read is not answered for.
#[verifier::spinoff_prover]
pub proof fn law_the_time_goes_to_the_node_that_asked<'a, I: Identity, const P: usize>(
    node: &Node<I, P>,
    now_ms: u32,
    port: u8,
    routing: Routing,
    received: Received<'a>,
    header: SystemTimeHeader,
    utc_time_us: Option<u64>,
    clock: ClockReading,
    seq_num: u32,
)
    requires
        routing.should_submit,
        received.message_type is SystemTimeRequest,
        header.target_node_id == node.id(),
    ensures
        ({
            let answers = handed_up(routing, received, seq![
                Answer::Body(Decoded::SystemTime { header, utc_time_us }),
                Answer::Clock(Some(clock)),
                Answer::SeqNum(Some(seq_num)),
            ]);
            &&& asked(node, arriving(now_ms, port), answers).skip(1) =~= seq![
                Ask::Accept,
                Ask::Lookup {
                    message_type: received.message_type,
                    seq_num: received.seq_num,
                },
                Ask::Decode { message_type: received.message_type },
                Ask::ReadClock,
                Ask::Sequence { now_ms, message_type: MessageType::SystemTimeResponse, reply_seq_num: 0 },
            ]
            &&& comes_to(
                node,
                arriving(now_ms, port),
                answers,
                routing.egress_mask,
                seq![heard_of(received)],
                Some(
                    sent(
                        node,
                        LINK_LOCAL_MULTICAST,
                        MessageType::SystemTimeResponse,
                        seq_num,
                        Body::SystemTime {
                            header: SystemTimeHeader {
                                target_node_id: header.source_node_id,
                                source_node_id: node.id(),
                            },
                            utc_time_us: ((clock.seconds * 1000 + clock.reading.ms) * 1000) as u64,
                        },
                    ),
                ),
            )
        }),
        ({
            let answers = handed_up(routing, received, seq![
                Answer::Body(Decoded::SystemTime { header, utc_time_us }),
                Answer::Clock(None),
            ]);
            &&& asked(node, arriving(now_ms, port), answers).skip(1) =~= seq![
                Ask::Accept,
                Ask::Lookup {
                    message_type: received.message_type,
                    seq_num: received.seq_num,
                },
                Ask::Decode { message_type: received.message_type },
                Ask::ReadClock,
            ]
            &&& comes_to(
                node,
                arriving(now_ms, port),
                answers,
                routing.egress_mask,
                seq![heard_of(received)],
                None,
            )
        }),
{
    assert(clock.reading.utc_micros(clock.seconds) == (clock.seconds * 1000 + clock.reading.ms)
        * 1000);
    let read = seq![Answer::Body(Decoded::SystemTime { header, utc_time_us }), Answer::Clock(Some(clock)), Answer::SeqNum(Some(seq_num))];
    lemma_handed_up(node, now_ms, port, routing, received, read);
    let r0 = Exchange {
        now_ms,
        ingress_port: port,
        relay: routing.egress_mask,
        stage: Stage::Decoding(received),
    };
    lemma_step(node, r0, read);
    let r1 = Exchange { stage: Stage::Reading(header.source_node_id), ..r0 };
    lemma_step(node, r1, read.skip(1));
    let r2 = Exchange { stage: Stage::Sequencing {
            destination: LINK_LOCAL_MULTICAST,
            message_type: MessageType::SystemTimeResponse,
            reply_seq_num: 0,
            body: Body::SystemTime {
                header: SystemTimeHeader {
                    target_node_id: header.source_node_id,
                    source_node_id: node.id(),
                },
                utc_time_us: ((clock.seconds * 1000 + clock.reading.ms) * 1000) as u64,
            },
        }, ..r0 };
    lemma_step(node, r2, read.skip(1).skip(1));
    let unset = seq![Answer::Body(Decoded::SystemTime { header, utc_time_us }), Answer::Clock(None)];
    lemma_handed_up(node, now_ms, port, routing, received, unset);
    let u0 = Exchange {
        now_ms,
        ingress_port: port,
        relay: routing.egress_mask,
        stage: Stage::Decoding(received),
    };
    lemma_step(node, u0, unset);
    let u1 = Exchange { stage: Stage::Reading(header.source_node_id), ..u0 };
    lemma_step(node, u1, unset.skip(1));
}

/// A node told the time, by its own id or along with every other node, sets its
/// clock to that time and confirms it, with that same time, to the node that told
/// it, the one the message's body names. A clock that refuses is not confirmed,
/// and a message without a time sets nothing.
#[verifier::spinoff_prover]
pub proof fn law_a_set_clock_is_confirmed_to_the_node_that_set_it<'a, I: Identity, const P: usize>(
    node: &Node<I, P>,
    now_ms: u32,
    port: u8,
    routing: Routing,
    received: Received<'a>,
    header: SystemTimeHeader,
    utc: u64,
    seq_num: u32,
)
    requires
        routing.should_submit,
        received.message_type is SystemTimeSet,
        header.target_node_id == 0 || header.target_node_id == node.id(),
    ensures
        ({
            let answers = handed_up(routing, received, seq![
                Answer::Body(Decoded::SystemTime { header, utc_time_us: Some(utc) }),
                Answer::Flag(true),
                Answer::SeqNum(Some(seq_num)),
            ]);
            &&& asked(node, arriving(now_ms, port), answers).skip(1) =~= seq![
                Ask::Accept,
                Ask::Lookup {
                    message_type: received.message_type,
                    seq_num: received.seq_num,
                },
                Ask::Decode { message_type: received.message_type },
                Ask::SetClock { utc_time_us: utc },
                Ask::Sequence { now_ms, message_type: MessageType::SystemTimeResponse, reply_seq_num: 0 },
            ]
            &&& comes_to(
                node,
                arriving(now_ms, port),
                answers,
                routing.egress_mask,
                seq![heard_of(received)],
                Some(
                    sent(
                        node,
                        LINK_LOCAL_MULTICAST,
                        MessageType::SystemTimeResponse,
                        seq_num,
                        Body::SystemTime {
                            header: SystemTimeHeader {
                                target_node_id: header.source_node_id,
                                source_node_id: node.id(),
                            },
                            utc_time_us: utc,
                        },
                    ),
                ),
            )
        }),
        ({
            let answers = handed_up(routing, received, seq![
                Answer::Body(Decoded::SystemTime { header, utc_time_us: Some(utc) }),
                Answer::Flag(false),
            ]);
            &&& asked(node, arriving(now_ms, port), answers).skip(1) =~= seq![
                Ask::Accept,
                Ask::Lookup {
                    message_type: received.message_type,
                    seq_num: received.seq_num,
                },
                Ask::Decode { message_type: received.message_type },
                Ask::SetClock { utc_time_us: utc },
            ]
            &&& comes_to(
                node,
                arriving(now_ms, port),
                answers,
                routing.egress_mask,
                seq![heard_of(received)],
                None,
            )
        }),
        ({
            let answers = handed_up(routing, received, seq![
                Answer::Body(Decoded::SystemTime { header, utc_time_us: None }),
            ]);
            &&& asked(node, arriving(now_ms, port), answers).skip(1) =~= seq![
                Ask::Accept,
                Ask::Lookup {
                    message_type: received.message_type,
                    seq_num: received.seq_num,
                },
                Ask::Decode { message_type: received.message_type },
            ]
            &&& comes_to(
                node,
                arriving(now_ms, port),
                answers,
                routing.egress_mask,
                seq![heard_of(received)],
                None,
            )
        }),
{
    let done = seq![
        Answer::Body(Decoded::SystemTime { header, utc_time_us: Some(utc) }),
        Answer::Flag(true),
        Answer::SeqNum(Some(seq_num)),
    ];
    lemma_handed_up(node, now_ms, port, routing, received, done);
    let d0 = Exchange {
        now_ms,
        ingress_port: port,
        relay: routing.egress_mask,
        stage: Stage::Decoding(received),
    };
    lemma_step(node, d0, done);
    let d1 = Exchange { stage: Stage::Setting(header.source_node_id, utc), ..d0 };
    lemma_step(node, d1, done.skip(1));
    let d2 = Exchange { stage: Stage::Sequencing {
            destination: LINK_LOCAL_MULTICAST,
            message_type: MessageType::SystemTimeResponse,
            reply_seq_num: 0,
            body: Body::SystemTime {
                header: SystemTimeHeader {
                    target_node_id: header.source_node_id,
                    source_node_id: node.id(),
                },
                utc_time_us: utc,
            },
        }, ..d0 };
    lemma_step(node, d2, done.skip(1).skip(1));
    let refused = seq![
        Answer::Body(Decoded::SystemTime { header, utc_time_us: Some(utc) }),
        Answer::Flag(false),
    ];
    lemma_handed_up(node, now_ms, port, routing, received, refused);
    let r0 = Exchange {
        now_ms,
        ingress_port: port,
        relay: routing.egress_mask,
        stage: Stage::Decoding(received),
    };
    lemma_step(node, r0, refused);
    let r1 = Exchange { stage: Stage::Setting(header.source_node_id, utc), ..r0 };
    lemma_step(node, r1, refused.skip(1));
    let empty = seq![Answer::Body(Decoded::SystemTime { header, utc_time_us: None })];
    lemma_handed_up(node, now_ms, port, routing, received, empty);
    let n0 = Exchange {
        now_ms,
        ingress_port: port,
        relay: routing.egress_mask,
        stage: Stage::Decoding(received),
    };
    lemma_step(node, n0, empty);
}

/// A response about the time, and a request for it that names nobody in
/// particular, are told to the application and leave the clock alone.
#[verifier::spinoff_prover]
pub proof fn law_a_time_message_that_asks_nothing_of_us_is_only_told<'a, I: Identity, const P: usize>(
    node: &Node<I, P>,
    now_ms: u32,
    port: u8,
    routing: Routing,
    received: Received<'a>,
    header: SystemTimeHeader,
    utc_time_us: Option<u64>,
)
    requires
        routing.should_submit,
        (received.message_type is SystemTimeResponse && (header.target_node_id == 0
            || header.target_node_id == node.id())) || (received.message_type is SystemTimeRequest
            && header.target_node_id == 0 && node.id() != 0),
    ensures
        ({
            let answers = handed_up(routing, received, seq![Answer::Body(Decoded::SystemTime { header, utc_time_us })]);
            &&& asked(node, arriving(now_ms, port), answers).skip(1) =~= seq![
                Ask::Accept,
                Ask::Lookup {
                    message_type: received.message_type,
                    seq_num: received.seq_num,
                },
                Ask::Decode { message_type: received.message_type },
            ]
            &&& comes_to(
                node,
                arriving(now_ms, port),
                answers,
                routing.egress_mask,
                seq![heard_of(received)],
                None,
            )
        }),
{
    let more = seq![Answer::Body(Decoded::SystemTime { header, utc_time_us })];
    lemma_handed_up(node, now_ms, port, routing, received, more);
    let e0 = Exchange {
        now_ms,
        ingress_port: port,
        relay: routing.egress_mask,
        stage: Stage::Decoding(received),
    };
    lemma_step(node, e0, more);
}

/// A time message that names another node is passed on whole, to every port but
/// the one its sender stamped, and nothing else comes of it: the clock is left
/// alone and nothing is answered.
#[verifier::spinoff_prover]
pub proof fn law_a_time_message_for_another_node_is_passed_on_untouched<'a, I: Identity, const P: usize>(
    node: &Node<I, P>,
    now_ms: u32,
    port: u8,
    routing: Routing,
    received: Received<'a>,
    header: SystemTimeHeader,
    utc_time_us: Option<u64>,
)
    requires
        routing.should_submit,
        received.message_type is SystemTimeRequest || received.message_type is SystemTimeResponse
            || received.message_type is SystemTimeSet,
        header.target_node_id != 0,
        header.target_node_id != node.id(),
        received.payload@.len() <= 0xFFFF,
    ensures
        ({
            let answers = handed_up(routing, received, seq![Answer::Body(Decoded::SystemTime { header, utc_time_us })]);
            &&& asked(node, arriving(now_ms, port), answers).len() == 4
            &&& concluded(node, arriving(now_ms, port), answers) matches Some(outcome)
            &&& outcome.events =~= seq![heard_of(received)]
            &&& outcome.owing.reply is None
            &&& outcome.owing.forward matches Some(reflood)
            &&& reflood.start == 54
            &&& reflood.end == 54 + 13 + received.payload@.len()
            &&& reflood.ingress_port == received.ingress_port
        }),
{
    let more = seq![Answer::Body(Decoded::SystemTime { header, utc_time_us })];
    lemma_handed_up(node, now_ms, port, routing, received, more);
    let e0 = Exchange {
        now_ms,
        ingress_port: port,
        relay: routing.egress_mask,
        stage: Stage::Decoding(received),
    };
    lemma_step(node, e0, more);
    lemma_first_question(node, arriving(now_ms, port), handed_up(routing, received, more));
    let all = asked(node, arriving(now_ms, port), handed_up(routing, received, more));
    assert(all.skip(1).len() == 3);
}

/// The heartbeat timer ages the neighbours and sweeps the outstanding requests,
/// in that order and at its own time, and then sends a heartbeat on the link
/// that says how long the node has been up.
#[verifier::spinoff_prover]
pub proof fn law_a_tick_ages_and_sweeps_and_then_beats<'a, I: Identity, const P: usize>(
    node: &Node<I, P>,
    uptime_ms: u32,
    seq_num: u32,
)
    ensures
        ({
            let e = Exchange {
                now_ms: uptime_ms,
                ingress_port: 0,
                relay: 0,
                stage: Stage::<'a>::Aging,
            };
            let answers = seq![Answer::Done, Answer::Done, Answer::SeqNum(Some(seq_num))];
            &&& asked(node, e, answers) =~= seq![
                Ask::Age { now_ms: uptime_ms },
                Ask::Sweep { now_ms: uptime_ms },
                Ask::Sequence {
                    now_ms: uptime_ms,
                    message_type: MessageType::Heartbeat,
                    reply_seq_num: 0,
                },
            ]
            &&& comes_to(
                node,
                e,
                answers,
                0,
                seq![],
                Some(
                    sent(
                        node,
                        LINK_LOCAL_MULTICAST,
                        MessageType::Heartbeat,
                        seq_num,
                        Body::Heartbeat { uptime_ms },
                    ),
                ),
            )
        }),
{
    let answers = seq![Answer::Done, Answer::Done, Answer::SeqNum(Some(seq_num))];
    let e0 = Exchange { now_ms: uptime_ms, ingress_port: 0, relay: 0, stage: Stage::<'a>::Aging };
    let e1 = Exchange { stage: Stage::Sweeping, ..e0 };
    let e2 = Exchange {
        stage: Stage::Sequencing {
            destination: LINK_LOCAL_MULTICAST,
            message_type: MessageType::Heartbeat,
            reply_seq_num: 0,
            body: Body::Heartbeat { uptime_ms },
        },
        ..e0
    };
    lemma_step(node, e0, answers);
    lemma_step(node, e1, answers.skip(1));
    lemma_step(node, e2, answers.skip(1).skip(1));
}

/// A message of the node's own goes out as it was given: the registry is asked
/// for its number, with the number it is to echo, and it goes to where it was
/// meant for with the number the registry gives. Without one it does not go
/// out at all.
#[verifier::spinoff_prover]
pub proof fn law_a_message_is_sent_as_it_was_given<'a, I: Identity, const P: usize>(
    node: &Node<I, P>,
    now_ms: u32,
    destination: Address,
    message_type: MessageType,
    reply_seq_num: u32,
    body: Body<'a>,
    seq_num: u32,
)
    ensures
        ({
            let e = sending(now_ms, destination, message_type, reply_seq_num, body);
            let given = seq![Answer::SeqNum(Some(seq_num))];
            let refused = seq![Answer::SeqNum(None)];
            &&& asked(node, e, given) =~= seq![
                Ask::Sequence { now_ms, message_type, reply_seq_num },
            ]
            &&& comes_to(
                node,
                e,
                given,
                0,
                seq![],
                Some(sent(node, destination, message_type, seq_num, body)),
            )
            &&& comes_to(node, e, refused, 0, seq![], None)
        }),
{
    let e = sending(now_ms, destination, message_type, reply_seq_num, body);
    lemma_step(node, e, seq![Answer::SeqNum(Some(seq_num))]);
    lemma_step(node, e, seq![Answer::SeqNum(None)]);
}

/// No message goes out under a number the registry did not give it: whatever
/// else is answered, the number of a message that goes out is one of the
/// answers.
#[verifier::spinoff_prover]
pub proof fn law_every_number_is_the_registrys<'a, I: Identity, const P: usize>(
    node: &Node<I, P>,
    e: Exchange<'a>,
    answers: Seq<Answer<'a>>,
)
    ensures
        concluded(node, e, answers) matches Some(outcome) ==> (outcome.owing.reply matches Some(
            draft,
        ) ==> answers.contains(Answer::SeqNum(Some(draft.seq_num)))),
    decreases answers.len(),
{
    if answers.len() > 0 {
        lemma_step(node, e, answers);
        match node.after(e, answers[0]).next {
            Next::Finished(owing) => {
                if owing.reply is Some {
                    assert(answers[0] == Answer::SeqNum::<'a>(Some(owing.reply->0.seq_num)));
                }
            },
            Next::Continue(later) => {
                let rest = answers.skip(1);
                law_every_number_is_the_registrys(node, later, rest);
                if concluded(node, later, rest) is Some {
                    let reply = concluded(node, later, rest)->0.owing.reply;
                    if reply is Some {
                        let wanted = Answer::SeqNum::<'a>(Some(reply->0.seq_num));
                        let i = choose|i: int| 0 <= i < rest.len() && rest[i] == wanted;
                        assert(answers[i + 1] == wanted);
                    }
                }
            },
        }
    }
}

/// A node asked to describe itself is asked under the id it was named by, and
/// the request is recorded, as it is to be used, before it goes out. A request
/// that cannot go out is taken back if it was recorded, and only then.
#[verifier::spinoff_prover]
pub proof fn law_a_description_is_asked_for_as_it_was_recorded<'a, I: Identity, const P: usize>(
    node: &Node<I, P>,
    now_ms: u32,
    target: u64,
    kind: InfoRequestKind,
    recorded: bool,
    taken: Option<InfoRequestKind>,
    seq_num: u32,
)
    ensures
        ({
            let e = Exchange {
                now_ms,
                ingress_port: 0,
                relay: 0,
                stage: Stage::<'a>::Recording(target, kind),
            };
            let goes = seq![
                Answer::Flag(recorded),
                Answer::Flag(true),
                Answer::SeqNum(Some(seq_num)),
            ];
            let stays = seq![Answer::Flag(recorded), Answer::Flag(false), Answer::Kind(taken)];
            let before = seq![
                Ask::Record { node_id: target, kind },
                Ask::Registered { message_type: MessageType::DeviceInfoRequest },
            ];
            &&& asked(node, e, goes) =~= before + seq![
                Ask::Sequence {
                    now_ms,
                    message_type: MessageType::DeviceInfoRequest,
                    reply_seq_num: 0,
                },
            ]
            &&& comes_to(
                node,
                e,
                goes,
                0,
                seq![],
                Some(
                    sent(
                        node,
                        LINK_LOCAL_MULTICAST,
                        MessageType::DeviceInfoRequest,
                        seq_num,
                        Body::Target(target),
                    ),
                ),
            )
            &&& asked(node, e, stays) =~= if recorded {
                before + seq![Ask::Take { node_id: target }]
            } else {
                before
            }
            &&& comes_to(node, e, stays, 0, seq![], None)
        }),
{
    let goes = seq![
        Answer::Flag(recorded),
        Answer::Flag(true),
        Answer::SeqNum(Some(seq_num)),
    ];
    let stays = seq![Answer::Flag(recorded), Answer::Flag(false), Answer::Kind(taken)];
    let e0 = Exchange {
        now_ms,
        ingress_port: 0,
        relay: 0,
        stage: Stage::<'a>::Recording(target, kind),
    };
    let e1 = Exchange { stage: Stage::Checking(target, recorded), ..e0 };
    let e2 = Exchange {
        stage: Stage::Sequencing {
            destination: LINK_LOCAL_MULTICAST,
            message_type: MessageType::DeviceInfoRequest,
            reply_seq_num: 0,
            body: Body::Target(target),
        },
        ..e0
    };
    let e3 = Exchange { stage: Stage::Withdrawing(target), ..e0 };
    lemma_step(node, e0, goes);
    lemma_step(node, e1, goes.skip(1));
    lemma_step(node, e2, goes.skip(1).skip(1));
    lemma_step(node, e0, stays);
    lemma_step(node, e1, stays.skip(1));
    lemma_step(node, e3, stays.skip(1).skip(1));
}

/// Whether an answer is one to this question.
pub open spec fn fits(question: Ask<'_>, answer: Answer<'_>) -> bool {
    match question {
        Ask::Route { .. } => answer is Routed,
        Ask::Accept => answer is Rejected || answer is Accepted,
        Ask::Lookup { .. } => answer is Unregistered || answer is SequencedReply
            || answer is Process,
        Ask::Decode { .. } => answer is Malformed || answer is Body,
        Ask::Hear { .. } => answer is Heard,
        Ask::Forget { .. } | Ask::Store { .. } | Ask::Age { .. } | Ask::Sweep { .. } => answer
            is Done,
        Ask::Recall { .. } => answer is NodeId,
        Ask::Take { .. } => answer is Kind,
        Ask::Record { .. }
        | Ask::Registered { .. }
        | Ask::Find { .. }
        | Ask::Match { .. }
        | Ask::SetClock { .. } => answer is Flag,
        Ask::ReadClock => answer is Clock,
        Ask::Sequence { .. } => answer is SeqNum,
    }
}

/// An answer to some other question than the one that was put ends the
/// exchange: nothing is told and nothing is owed but the relay.
#[verifier::spinoff_prover]
pub proof fn law_an_answer_to_another_question_ends_it<'a, I: Identity, const P: usize>(
    node: &Node<I, P>,
    e: Exchange<'a>,
    answer: Answer<'a>,
)
    requires
        !fits(e.question(node.id()), answer),
    ensures
        comes_to(node, e, seq![answer], e.relay, seq![], None),
{
    lemma_step(node, e, seq![answer]);
}

/// A message whose body turns out to be of another type than its header says
/// is told to the application and nothing comes of it.
#[verifier::spinoff_prover]
pub proof fn law_a_body_of_another_type_is_ignored<'a, I: Identity, const P: usize>(
    node: &Node<I, P>,
    now_ms: u32,
    port: u8,
    routing: Routing,
    received: Received<'a>,
    decoded: Decoded<'a>,
)
    requires
        routing.should_submit,
        match received.message_type {
            MessageType::Heartbeat => decoded !is Heartbeat,
            MessageType::DeviceInfoRequest | MessageType::NeighborTableRequest => decoded
                !is Target,
            MessageType::DeviceInfoReply => decoded !is DeviceInfo,
            MessageType::EchoRequest => decoded !is EchoRequest,
            MessageType::EchoReply => decoded !is EchoReply,
            MessageType::SystemTimeRequest
            | MessageType::SystemTimeResponse
            | MessageType::SystemTimeSet => decoded !is SystemTime,
            _ => false,
        },
    ensures
        comes_to(
            node,
            arriving(now_ms, port),
            handed_up(routing, received, seq![Answer::Body(decoded)]),
            routing.egress_mask,
            seq![heard_of(received)],
            None,
        ),
{
    let more = seq![Answer::Body(decoded)];
    lemma_handed_up(node, now_ms, port, routing, received, more);
    let e0 = Exchange {
        now_ms,
        ingress_port: port,
        relay: routing.egress_mask,
        stage: Stage::Decoding(received),
    };
    lemma_step(node, e0, more);
}

} // verus!
