//! The node, driven question by question.

use bm_stack::frame::{
    Addresses, BCMP_BODY_OFFSET, BCMP_HEADER_LEN, GLOBAL_MULTICAST, HOP_LIMIT,
    IPV6_DESTINATION_ADDRESS_OFFSET, IPV6_HOP_LIMIT_OFFSET, IPV6_INGRESS_EGRESS_PORTS_OFFSET,
    IPV6_NEXT_HEADER_OFFSET, IPV6_SOURCE_ADDRESS_OFFSET, LINK_LOCAL_MULTICAST,
    MIN_FRAME_WITH_ADDRESSES, MTU,
};
use bm_stack::message::{
    DeviceInfo, DeviceInfoReply, EchoReply, EchoRequest, Heartbeat, InfoRequestKind, MessageType,
    NeighborInfo, PendingRequest, PortInfo, SystemTimeHeader,
};
use bm_stack::mock::{MockError, MockPhy, Replayed, Script};
use bm_stack::node::{
    build_frame, forward_link_local, transmit, Answer, Ask, Body, ClockReading, Decoded, Draft,
    Duty, Event, Exchange, Heard, Neighbor, Next, Node, Outbound, Owed, Owing, Received, Reflood,
    Routing, Snapshot, Transfer, TxKind, CHECKSUM_OFFSET, OWN_TYPES,
};
use bm_stack::port::{Egress, Identity, Phy, Rtc, RtcTimeAndDate, SoftRtc, UtcDateTime};

const NODE_ID: u64 = 0xC0FF_EE00_1234_5678;
const PEER_ID: u64 = 0x0000_0000_55AA_0011;
const THIRD_ID: u64 = 0x0000_0000_0BAD_F00D;
const PORTS: u8 = 2;
const IP_PROTO_BCMP: u8 = 0xBC;
const OUR_PING_ID: u16 = NODE_ID as u16;
const REQUEST_TYPE: MessageType = MessageType::ConfigGet;
const REPLY_TYPE: MessageType = MessageType::ConfigValue;

struct TestIdentity;

impl Identity for TestIdentity {
    fn node_id(&self) -> u64 {
        NODE_ID
    }

    fn device_info(&self) -> DeviceInfo {
        DeviceInfo {
            node_id: 0,
            vendor_id: 0xBEEF,
            product_id: 0x0042,
            serial_num: *b"bm-stack-test\0\0\0",
            git_sha: 0x1234_5678,
            ver_major: 1,
            ver_minor: 2,
            ver_rev: 4,
            ver_hw: 3,
        }
    }

    fn version_string(&self) -> &[u8] {
        b"0.1.0-bm-stack"
    }

    fn device_name(&self) -> &[u8] {
        b"rust-node"
    }
}

fn node() -> Node<TestIdentity, 64> {
    Node::new(TestIdentity, PORTS)
}

/// Answer an exchange's questions one after the other. What it asked, what it
/// reported, and what it owes.
fn drive<'a, const P: usize>(
    node: &Node<TestIdentity, P>,
    exchange: Exchange<'a>,
    answers: &[Answer<'a>],
) -> (Vec<Ask<'a>>, Vec<Event<'a>>, Owing<'a>) {
    let mut asked = Vec::new();
    let mut events = Vec::new();
    let mut exchange = exchange;
    for answer in answers {
        asked.push(node.ask(&exchange));
        let progress = node.resume(exchange, *answer);
        if let Some(event) = progress.event {
            events.push(event);
        }
        match progress.next {
            Next::Continue(next) => exchange = next,
            Next::Finished(owing) => {
                assert_eq!(asked.len(), answers.len(), "an answer nobody asked for");
                return (asked, events, owing);
            }
        }
    }
    panic!("the exchange still has a question: {:?}", node.ask(&exchange));
}

const NOTHING: Owing<'static> = Owing { relay: None, reply: None, forward: None };

/// The neighbours' address is never relayed.
const NEIGHBOR: Answer<'static> =
    Answer::Routed(Routing { should_submit: true, egress_mask: 0 });

/// A global multicast that came in on port 1 is flooded out port 2.
const FLOODED: Answer<'static> =
    Answer::Routed(Routing { should_submit: true, egress_mask: 0b10 });

fn received<'a>(message_type: MessageType, payload: &'a [u8]) -> Received<'a> {
    Received {
        message_type,
        seq_num: 0,
        source: PEER_ID,
        destination: LINK_LOCAL_MULTICAST,
        payload,
        ingress_port: 1,
    }
}

fn message<'a>(message_type: MessageType, payload: &'a [u8]) -> Event<'a> {
    Event::Message { message_type, seq_num: 0, source: PEER_ID, payload }
}

fn reply<'a>(owing: &Owing<'a>) -> Draft<'a> {
    owing.reply.expect("a reply is owed")
}

fn heartbeat(uptime_us: u64) -> Heartbeat {
    Heartbeat { time_since_boot_us: uptime_us, liveliness_lease_dur_s: 10 }
}

fn heard(request_info: bool, reset: bool) -> Answer<'static> {
    Answer::Heard(Heard { evicted: None, request_info, reset })
}

fn headers() -> Addresses {
    Addresses {
        source: [0xFE, 0x80, 0, 0, 0, 0, 0, 0, 0xC0, 0xFF, 0xEE, 0, 0x12, 0x34, 0x56, 0x78],
        source_mac: [2, 3, 4, 5, 6, 7],
        destination: LINK_LOCAL_MULTICAST,
        multicast_mac: Some([0x33, 0x33, 0, 0, 0, 1]),
        next_header: IP_PROTO_BCMP,
    }
}

#[test]
fn the_heartbeat_we_emit_is_a_well_formed_frame() {
    let node = node();
    let (asked, events, owing) = drive(
        &node,
        node.on_tick(1_234_567),
        &[Answer::Done, Answer::Done, Answer::SeqNum(Some(0))],
    );
    assert_eq!(
        asked,
        vec![
            Ask::Age { now_ms: 1_234_567 },
            Ask::Sweep { now_ms: 1_234_567 },
            Ask::Sequence {
                now_ms: 1_234_567,
                message_type: MessageType::Heartbeat,
                reply_seq_num: 0,
            },
        ]
    );
    assert!(events.is_empty());
    assert_eq!(
        reply(&owing),
        Draft {
            destination: LINK_LOCAL_MULTICAST,
            message_type: MessageType::Heartbeat,
            seq_num: 0,
            mask: 0b11,
            body: Body::Heartbeat { uptime_ms: 1_234_567 },
        }
    );

    let mut tx = vec![0u8; MTU];
    let body = [7u8; 12];
    let end = build_frame(&mut tx, &headers(), &body).expect("twelve bytes fit");
    assert_eq!(end, BCMP_BODY_OFFSET + 12);
    let frame = &tx[..end];
    assert_eq!(&frame[0..6], &[0x33, 0x33, 0x00, 0x00, 0x00, 0x01]);
    assert_eq!(&frame[6..12], &headers().source_mac);
    assert_eq!(u16::from_be_bytes([frame[12], frame[13]]), 0x86DD);
    assert_eq!(&frame[14..18], &[0x60, 0x00, 0x00, 0x00]);
    assert_eq!(u16::from_be_bytes([frame[18], frame[19]]), 25);
    assert_eq!(frame[IPV6_NEXT_HEADER_OFFSET], IP_PROTO_BCMP);
    assert_eq!(frame[IPV6_HOP_LIMIT_OFFSET], HOP_LIMIT);
    assert_eq!(
        &frame[IPV6_SOURCE_ADDRESS_OFFSET..IPV6_SOURCE_ADDRESS_OFFSET + 16],
        &headers().source
    );
    assert_eq!(
        &frame[IPV6_DESTINATION_ADDRESS_OFFSET..IPV6_DESTINATION_ADDRESS_OFFSET + 16],
        &LINK_LOCAL_MULTICAST
    );
    assert_eq!(&frame[BCMP_BODY_OFFSET..], &body);
}

#[test]
fn a_unicast_frame_is_sent_to_the_broadcast_mac() {
    let mut tx = vec![0u8; 100];
    let addresses = Addresses { multicast_mac: None, ..headers() };
    assert_eq!(build_frame(&mut tx, &addresses, &[1, 2, 3]), Some(70));
    assert_eq!(&tx[0..6], &[0xFF; 6]);
}

#[test]
fn a_body_that_does_not_fit_is_refused() {
    let mut tx = vec![0u8; BCMP_BODY_OFFSET + 4];
    assert_eq!(build_frame(&mut tx, &headers(), &[0; 4]), Some(BCMP_BODY_OFFSET + 4));
    assert_eq!(build_frame(&mut tx, &headers(), &[0; 5]), None);
    assert_eq!(build_frame(&mut [0u8; 10], &headers(), &[]), None);
    let mut long = vec![0u8; 0x2_0000];
    let body = vec![0u8; 0xFFFF - BCMP_HEADER_LEN + 1];
    assert_eq!(build_frame(&mut long, &headers(), &body), None);
    assert_eq!(
        build_frame(&mut long, &headers(), &body[1..]),
        Some(BCMP_BODY_OFFSET + body.len() - 1)
    );
}

fn new_peer<'a>() -> Vec<Answer<'a>> {
    vec![
        NEIGHBOR,
        Answer::Accepted(received(MessageType::Heartbeat, &[])),
        Answer::Process,
        Answer::Body(Decoded::Heartbeat(heartbeat(1_000_000))),
        heard(true, false),
        Answer::Flag(true),
        Answer::Flag(true),
        Answer::SeqNum(Some(0)),
    ]
}

#[test]
fn a_heartbeat_from_a_new_peer_is_answered_with_an_info_request() {
    let node = node();
    let (asked, events, owing) = drive(&node, node.on_frame(1000, 1), &new_peer());
    assert_eq!(
        asked,
        vec![
            Ask::Route { ingress_mask: 0b01 },
            Ask::Accept,
            Ask::Lookup { message_type: MessageType::Heartbeat, seq_num: 0 },
            Ask::Decode { message_type: MessageType::Heartbeat },
            Ask::Hear {
                now_ms: 1000,
                source: PEER_ID,
                port: 1,
                heartbeat: heartbeat(1_000_000),
            },
            Ask::Record { node_id: PEER_ID, kind: InfoRequestKind::Cache },
            Ask::Registered { message_type: MessageType::DeviceInfoRequest },
            Ask::Sequence {
                now_ms: 1000,
                message_type: MessageType::DeviceInfoRequest,
                reply_seq_num: 0,
            },
        ]
    );
    assert_eq!(events, vec![message(MessageType::Heartbeat, &[])]);
    assert!(owing.relay.is_none(), "FF02::1 is never relayed");
    assert_eq!(
        reply(&owing),
        Draft {
            destination: LINK_LOCAL_MULTICAST,
            message_type: MessageType::DeviceInfoRequest,
            seq_num: 0,
            mask: 0b11,
            body: Body::Target(PEER_ID),
        }
    );
}

#[test]
fn a_second_heartbeat_from_a_known_peer_says_nothing() {
    let node = node();
    let (_, _, owing) = drive(
        &node,
        node.on_frame(2000, 1),
        &[
            NEIGHBOR,
            Answer::Accepted(received(MessageType::Heartbeat, &[])),
            Answer::Process,
            Answer::Body(Decoded::Heartbeat(heartbeat(2_000_000))),
            heard(false, false),
        ],
    );
    assert_eq!(owing, NOTHING);
}

fn asked_for<'a>(
    node: &Node<TestIdentity, 64>,
    message_type: MessageType,
    target: u64,
    seq_num: Option<u32>,
) -> Owing<'a> {
    let mut answers = vec![
        NEIGHBOR,
        Answer::Accepted(received(message_type, &[])),
        Answer::Process,
        Answer::Body(Decoded::Target(target)),
    ];
    if target == 0 || target == NODE_ID {
        answers.push(Answer::SeqNum(seq_num));
    }
    drive(node, node.on_frame(1000, 1), &answers).2
}

#[test]
fn a_device_info_request_is_answered_with_our_identity() {
    for target in [0u64, NODE_ID] {
        let node = node();
        let owing = asked_for(&node, MessageType::DeviceInfoRequest, target, Some(0));
        assert_eq!(reply(&owing).message_type, MessageType::DeviceInfoReply);
        assert_eq!(reply(&owing).body, Body::DeviceInfo);

        let said = node.device_info_reply();
        assert_eq!(said.info.node_id, NODE_ID);
        assert_eq!(said.info.vendor_id, 0xBEEF);
        assert_eq!(said.info.product_id, 0x0042);
        assert_eq!(said.info.git_sha, 0x1234_5678);
        assert_eq!(
            (said.info.ver_major, said.info.ver_minor, said.info.ver_rev, said.info.ver_hw),
            (1, 2, 4, 3)
        );
        assert_eq!(said.version_string, b"0.1.0-bm-stack");
        assert_eq!(said.device_name, b"rust-node");
    }
}

#[test]
fn a_string_is_cut_to_what_its_length_can_say() {
    struct Wordy(Vec<u8>);
    impl Identity for Wordy {
        fn node_id(&self) -> u64 {
            1
        }
        fn device_info(&self) -> DeviceInfo {
            TestIdentity.device_info()
        }
        fn version_string(&self) -> &[u8] {
            &self.0
        }
        fn device_name(&self) -> &[u8] {
            &self.0[..255]
        }
    }
    let node: Node<Wordy, 8> = Node::new(Wordy(vec![7; 300]), PORTS);
    let said = node.device_info_reply();
    assert_eq!(said.version_string.len(), 255);
    assert_eq!(said.device_name.len(), 255);
}

#[test]
fn a_request_for_another_node_is_ignored() {
    let node = node();
    for message_type in [MessageType::DeviceInfoRequest, MessageType::NeighborTableRequest] {
        assert_eq!(asked_for(&node, message_type, 0x1234, None), NOTHING);
    }
}

#[test]
fn a_neighbor_table_request_reports_our_ports_and_neighbours() {
    let mut node = node();
    for port in 1..=PORTS {
        node.set_link_up(port, true);
    }
    let owing = asked_for(&node, MessageType::NeighborTableRequest, 0, Some(0));
    assert_eq!(reply(&owing).message_type, MessageType::NeighborTableReply);
    assert_eq!(reply(&owing).body, Body::NeighborTable);

    let table =
        node.neighbor_table_reply(&[Neighbor { node_id: PEER_ID, port: 2, online: true }]);
    assert_eq!(table.node_id, NODE_ID);
    assert_eq!(table.ports, vec![PortInfo { state: 1, port_type: 0 }; 2]);
    assert_eq!(table.neighbors, vec![NeighborInfo { node_id: PEER_ID, port: 2, online: 1 }]);
}

#[test]
fn a_neighbor_table_reply_reports_a_down_port_as_down() {
    let mut node = node();
    node.set_link_up(1, true);
    node.set_link_up(2, false);
    assert!(node.link_up(1) && !node.link_up(2));
    let table = node.neighbor_table_reply(&[]);
    let states: Vec<bool> = table.ports.iter().map(|p| p.state == 1).collect();
    assert_eq!(states, vec![true, false]);
    let offline =
        node.neighbor_table_reply(&[Neighbor { node_id: 5, port: 1, online: false }]);
    assert_eq!(offline.neighbors[0].online, 0);
}

#[test]
fn a_node_with_many_ports_reports_sixteen() {
    let node: Node<TestIdentity, 8> = Node::new(TestIdentity, 200);
    assert_eq!(node.neighbor_table_reply(&[]).ports.len(), 16);
}

#[test]
fn garbage_is_dropped_without_a_reply() {
    let node = node();
    let (asked, events, owing) =
        drive(&node, node.on_frame(1000, 1), &[NEIGHBOR, Answer::Rejected]);
    assert_eq!(asked, vec![Ask::Route { ingress_mask: 1 }, Ask::Accept]);
    assert!(events.is_empty());
    assert_eq!(owing, NOTHING);

    let (_, events, owing) = drive(
        &node,
        node.on_frame(1000, 1),
        &[
            NEIGHBOR,
            Answer::Accepted(received(MessageType::Heartbeat, &[1])),
            Answer::Process,
            Answer::Malformed,
        ],
    );
    assert_eq!(events, vec![message(MessageType::Heartbeat, &[1])]);
    assert_eq!(owing, NOTHING);
}

#[test]
fn a_frame_the_policy_keeps_to_itself_is_not_looked_at() {
    let node = node();
    let (asked, _, owing) = drive(
        &node,
        node.on_frame(1000, 2),
        &[Answer::Routed(Routing { should_submit: false, egress_mask: 0b01 })],
    );
    assert_eq!(asked, vec![Ask::Route { ingress_mask: 0b10 }]);
    assert_eq!(owing, Owing { relay: Some(0b01), reply: None, forward: None });
}

#[test]
fn an_answer_to_another_question_ends_the_exchange() {
    let node = node();
    let (_, events, owing) = drive(&node, node.on_frame(1000, 1), &[Answer::Done]);
    assert!(events.is_empty());
    assert_eq!(owing, NOTHING);
}

#[test]
fn a_link_local_frame_is_stamped_once_per_port() {
    assert_eq!(
        transmit(TxKind::LinkLocalMulticast, 0b11, PORTS, 0b11),
        vec![
            Transfer { egress: Egress::Port(1), stamped: true },
            Transfer { egress: Egress::Port(2), stamped: true },
        ]
    );
}

#[test]
fn a_global_multicast_frame_goes_out_once_unstamped() {
    let node = node();
    let mut request = received(MessageType::DeviceInfoRequest, &[]);
    request.destination = GLOBAL_MULTICAST;
    let (_, _, owing) = drive(
        &node,
        node.on_frame(1000, 1),
        &[
            FLOODED,
            Answer::Accepted(request),
            Answer::Process,
            Answer::Body(Decoded::Target(0)),
            Answer::SeqNum(Some(0)),
        ],
    );
    assert!(owing.relay.is_some(), "global multicast is flooded onward");
    assert_eq!(reply(&owing).destination, GLOBAL_MULTICAST);
    assert_eq!(
        transmit(TxKind::GlobalMulticast, 0b11, PORTS, 0b11),
        vec![Transfer { egress: Egress::AllPorts, stamped: false }]
    );
}

#[test]
fn a_frame_that_is_not_multicast_does_not_go_out() {
    assert!(transmit(TxKind::Dropped, 0b11, PORTS, 0b11).is_empty());
}

#[test]
fn a_global_multicast_frame_is_relayed_out_the_other_port() {
    for ingress in 1..=PORTS {
        let node = node();
        let mask = 0b11 & !(1u16 << (ingress - 1));
        let (asked, _, owing) = drive(
            &node,
            node.on_frame(1000, ingress),
            &[
                Answer::Routed(Routing { should_submit: true, egress_mask: mask }),
                Answer::Accepted(received(MessageType::Other(0xFFFF), &[7u8; 8])),
                Answer::Unregistered,
            ],
        );
        assert_eq!(asked[0], Ask::Route { ingress_mask: 1 << (ingress - 1) });
        assert_eq!(owing, Owing { relay: Some(mask), reply: None, forward: None });
        let expected: Vec<Transfer> = (1..=PORTS)
            .filter(|p| *p != ingress)
            .map(|p| Transfer { egress: Egress::Port(p), stamped: false })
            .collect();
        assert_eq!(transmit(TxKind::GlobalMulticast, mask, PORTS, 0b11), expected);
    }
}

#[test]
fn a_link_local_neighbor_frame_is_never_relayed() {
    let node = node();
    let (_, _, owing) = drive(&node, node.on_frame(1000, 1), &new_peer());
    assert!(owing.relay.is_none());
    assert_eq!(reply(&owing).message_type, MessageType::DeviceInfoRequest);
    assert_eq!(transmit(TxKind::LinkLocalMulticast, 0b11, PORTS, 0b11).len(), 2);
}

#[test]
fn a_link_local_frame_that_is_not_the_neighbor_address_is_not_relayed() {
    let node = node();
    let (_, events, owing) = drive(
        &node,
        node.on_frame(1000, 1),
        &[
            NEIGHBOR,
            Answer::Accepted(received(MessageType::Other(0xFFFF), &[1u8; 4])),
            Answer::Unregistered,
        ],
    );
    assert!(events.is_empty());
    assert_eq!(owing, NOTHING);
}

#[test]
fn a_relay_goes_out_before_the_reply_it_shares_a_frame_with() {
    let mut relayed = [1u8, 2, 3];
    let mut answer = [4u8];
    let owed = Owed {
        relay: Some(Outbound::new(&mut relayed, 0b10)),
        reply: Some(Outbound::new(&mut answer, 0b11)),
        forward: None,
    };
    assert!(!owed.is_empty());
    let mut sent: Vec<(Egress, Vec<u8>)> = Vec::new();
    for duty in owed.in_order() {
        let outbound = match duty {
            Duty::Relay(relay) => relay,
            Duty::Reply(reply) => reply,
            Duty::Reflood(reflood) => panic!("nothing is re-flooded: {reflood:?}"),
        };
        for transfer in transmit(TxKind::GlobalMulticast, outbound.mask(), PORTS, 0b11) {
            sent.push((transfer.egress, outbound.frame().to_vec()));
        }
    }
    assert_eq!(
        sent,
        vec![(Egress::Port(2), vec![1, 2, 3]), (Egress::AllPorts, vec![4])],
        "the relay, port by port, and then the reply, to every port at once"
    );
    assert!(Owed { relay: None, reply: None, forward: None }.is_empty());

    // A request to every node is relayed as well as answered.
    let node = node();
    let (_, _, owing) = drive(
        &node,
        node.on_frame(1000, 1),
        &[
            Answer::Routed(Routing { should_submit: true, egress_mask: 0b10 }),
            Answer::Accepted(received(MessageType::DeviceInfoRequest, &[0; 8])),
            Answer::Process,
            Answer::Body(Decoded::Target(0)),
            Answer::SeqNum(Some(0)),
        ],
    );
    let answer = reply(&owing);
    assert_eq!(answer.message_type, MessageType::DeviceInfoReply);
    assert_eq!(owing.in_order(), vec![Duty::Relay(0b10), Duty::Reply(answer)]);
}

#[test]
fn a_re_flood_goes_out_once_the_rest_is_gone() {
    let reflood = Reflood { start: 54, end: 91, ingress_port: 1 };
    let mut relayed = [1u8, 2, 3];
    let mut answer = [4u8];
    let owed = Owed {
        relay: Some(Outbound::new(&mut relayed, 0b10)),
        reply: Some(Outbound::new(&mut answer, 0b11)),
        forward: Some(reflood),
    };
    let order: Vec<(u8, Vec<u8>)> = owed
        .in_order()
        .iter()
        .map(|duty| match duty {
            Duty::Relay(relay) => (0, relay.frame().to_vec()),
            Duty::Reply(reply) => (1, reply.frame().to_vec()),
            Duty::Reflood(last) => {
                assert_eq!(*last, reflood);
                (2, vec![])
            }
        })
        .collect();
    assert_eq!(order, vec![(0, vec![1, 2, 3]), (1, vec![4]), (2, vec![])]);

    let owing = Owing { relay: Some(0b10), reply: None, forward: Some(reflood) };
    assert_eq!(owing.in_order(), vec![Duty::Relay(0b10), Duty::Reflood(reflood)]);
    assert!(NOTHING.in_order().is_empty());
}

#[test]
fn a_relayed_copy_keeps_the_bytes_the_receive_path_cleared() {
    let mut original: Vec<u8> = (0..80).collect();
    original[IPV6_SOURCE_ADDRESS_OFFSET + 4] = 0xAB;
    original[IPV6_SOURCE_ADDRESS_OFFSET + 5] = 0xCD;
    let snapshot = Snapshot::take(&original).expect("long enough");
    let mut frame = original.clone();
    frame[IPV6_INGRESS_EGRESS_PORTS_OFFSET] = 0;
    frame[IPV6_SOURCE_ADDRESS_OFFSET + 4] = 0;
    frame[IPV6_SOURCE_ADDRESS_OFFSET + 5] = 0;
    frame[CHECKSUM_OFFSET] = 0;
    frame[CHECKSUM_OFFSET + 1] = 0;
    assert_ne!(frame, original);
    snapshot.restore(&mut frame);
    assert_eq!(frame, original);
    assert!(Snapshot::take(&original[..CHECKSUM_OFFSET + 1]).is_none());
}

#[test]
fn a_link_local_message_is_re_flooded_as_a_fresh_frame_per_port() {
    let message = [0xEEu8; BCMP_HEADER_LEN + 16];
    let mut tx = vec![0u8; MTU];
    let addresses =
        Addresses { multicast_mac: Some([0x33, 0x33, 0, 2, 0, 1]), ..headers() };
    let end = forward_link_local(&mut tx, &addresses, &message).expect("it fits");
    assert_eq!(end, MIN_FRAME_WITH_ADDRESSES + message.len());
    assert_eq!(&tx[0..6], &[0x33, 0x33, 0x00, 2, 0x00, 0x01]);
    assert_eq!(u16::from_be_bytes([tx[18], tx[19]]), message.len() as u16);
    assert_eq!(
        &tx[IPV6_SOURCE_ADDRESS_OFFSET..IPV6_SOURCE_ADDRESS_OFFSET + 16],
        &headers().source,
        "the forwarder is the source now"
    );
    assert_eq!(forward_link_local(&mut [0u8; 60], &addresses, &message), None);
    assert_eq!(forward_link_local(&mut [0u8; 10], &addresses, &[]), None);
}

#[test]
fn a_message_shorter_than_its_header_is_not_re_flooded() {
    let mut tx = [7u8; MTU];
    for len in [0, 1, BCMP_HEADER_LEN - 1] {
        assert_eq!(forward_link_local(&mut tx, &headers(), &vec![0; len]), None, "{len} bytes");
        assert_eq!(tx, [7u8; MTU], "and nothing was written");
    }
    assert_eq!(
        forward_link_local(&mut tx, &headers(), &[0; BCMP_HEADER_LEN]),
        Some(MIN_FRAME_WITH_ADDRESSES + BCMP_HEADER_LEN)
    );
    assert_eq!(
        forward_link_local(&mut tx, &headers(), &[0; 1460]),
        Some(MTU),
        "the longest message that fits"
    );
    assert_eq!(forward_link_local(&mut tx, &headers(), &[0; 1461]), None);
}

#[test]
fn a_message_of_the_nodes_own_goes_out_on_every_port() {
    for (ports, mask) in [(0, 0), (1, 0b1), (2, 0b11), (15, 0x7FFF), (16, 0xFFFF), (200, 0xFFFF)] {
        let node: Node<TestIdentity, 64> = Node::new(TestIdentity, ports);
        assert_eq!(node.all_ports_mask(), mask, "{ports} ports");
        let (_, _, owing) = drive(
            &node,
            node.on_tick(5),
            &[Answer::Done, Answer::Done, Answer::SeqNum(Some(0))],
        );
        assert_eq!(reply(&owing).mask, mask, "{ports} ports");
    }
}

#[test]
fn a_re_flood_lies_inside_the_frame_it_came_in() {
    let node = node();
    let frame = vec![0x10u8; MIN_FRAME_WITH_ADDRESSES + BCMP_HEADER_LEN + 24 + 3];
    let (_, _, owing) =
        time_message(&node, MessageType::SystemTimeRequest, THIRD_ID, Some(0), &[]);
    let reflood = owing.forward.expect("it is for another node");
    assert_eq!((reflood.start, reflood.end), (54, 54 + 13 + 24));
    assert_eq!(reflood.bcmp(&frame), &frame[54..91], "what trails the message stays behind");
}

#[test]
fn a_node_registers_every_type_it_handles() {
    assert_eq!(OWN_TYPES.len(), 10);
    for message_type in [
        MessageType::Heartbeat,
        MessageType::EchoRequest,
        MessageType::EchoReply,
        MessageType::SystemTimeRequest,
        MessageType::SystemTimeResponse,
        MessageType::SystemTimeSet,
        MessageType::NeighborTableRequest,
        MessageType::NeighborTableReply,
        MessageType::DeviceInfoRequest,
        MessageType::DeviceInfoReply,
    ] {
        assert!(OWN_TYPES.contains(&message_type), "{message_type:?}");
    }
    assert!(!OWN_TYPES.contains(&MessageType::ConfigGet));
}

#[test]
fn a_message_of_an_unregistered_type_is_never_sent() {
    let node = node();
    let exchange = node
        .request(0, &LINK_LOCAL_MULTICAST, REQUEST_TYPE, &[1, 2, 3])
        .expect("three bytes fit");
    let (asked, events, owing) = drive(&node, exchange, &[Answer::SeqNum(None)]);
    assert_eq!(
        asked,
        vec![Ask::Sequence { now_ms: 0, message_type: REQUEST_TYPE, reply_seq_num: 0 }]
    );
    assert!(events.is_empty());
    assert_eq!(owing, NOTHING);
}

#[test]
fn a_sequenced_request_takes_the_next_number_and_waits_for_its_reply() {
    let node = node();
    for expected in 0..3u32 {
        let exchange =
            node.request(100, &LINK_LOCAL_MULTICAST, REQUEST_TYPE, &[0xAB]).expect("it fits");
        let (_, _, owing) = drive(&node, exchange, &[Answer::SeqNum(Some(expected))]);
        assert_eq!(
            reply(&owing),
            Draft {
                destination: LINK_LOCAL_MULTICAST,
                message_type: REQUEST_TYPE,
                seq_num: expected,
                mask: 0b11,
                body: Body::Raw(&[0xAB]),
            }
        );
    }
}

#[test]
fn a_message_that_answers_one_echoes_its_number() {
    let node = node();
    let exchange = node
        .send(5, &GLOBAL_MULTICAST, REPLY_TYPE, &[9], 77)
        .expect("it fits");
    assert_eq!(
        node.ask(&exchange),
        Ask::Sequence { now_ms: 5, message_type: REPLY_TYPE, reply_seq_num: 77 }
    );
}

fn incoming<'a>(
    node: &Node<TestIdentity, 64>,
    received: Received<'a>,
    found: Answer<'a>,
) -> (Vec<Event<'a>>, Owing<'a>) {
    let (_, events, owing) = drive(
        node,
        node.on_frame(10, 1),
        &[NEIGHBOR, Answer::Accepted(received), found],
    );
    (events, owing)
}

#[test]
fn a_reply_answers_the_request_it_matches() {
    let node = node();
    let request = PendingRequest { message_type: REQUEST_TYPE, seq_num: 0 };
    let (events, owing) = incoming(
        &node,
        received(REPLY_TYPE, &[0xDE, 0xAD, 0xBE, 0xEF]),
        Answer::SequencedReply(request),
    );
    assert_eq!(owing, NOTHING, "a reply to our own request needs no answer");
    assert_eq!(
        events,
        vec![Event::Reply {
            request,
            message_type: REPLY_TYPE,
            source: PEER_ID,
            payload: &[0xDE, 0xAD, 0xBE, 0xEF],
        }]
    );
}

#[test]
fn a_reply_of_the_wrong_type_answers_the_request_anyway() {
    let node = node();
    let request = PendingRequest { message_type: REQUEST_TYPE, seq_num: 0 };
    let (events, _) = incoming(
        &node,
        received(MessageType::NeighborProtoReply, &[0x11, 0x22]),
        Answer::SequencedReply(request),
    );
    assert_eq!(
        events,
        vec![Event::Reply {
            request,
            message_type: MessageType::NeighborProtoReply,
            source: PEER_ID,
            payload: &[0x11, 0x22],
        }]
    );
}

#[test]
fn a_reply_with_no_outstanding_request_is_delivered_as_a_message() {
    let node = node();
    let mut unasked = received(REPLY_TYPE, &[0x01]);
    unasked.seq_num = 7;
    let (events, owing) = incoming(&node, unasked, Answer::Process);
    assert_eq!(
        events,
        vec![Event::Message {
            message_type: REPLY_TYPE,
            seq_num: 7,
            source: PEER_ID,
            payload: &[0x01],
        }]
    );
    assert_eq!(owing, NOTHING);
}

#[test]
fn an_unregistered_type_is_dropped_without_an_event() {
    let node = node();
    for message_type in [MessageType::Other(0xFFFF), MessageType::DeviceInfoRequest] {
        let (events, owing) =
            incoming(&node, received(message_type, &[0x01]), Answer::Unregistered);
        assert!(events.is_empty());
        assert_eq!(owing, NOTHING);
    }
}

#[test]
fn a_matched_reply_replaces_the_processing_its_type_would_have_had() {
    let node = node();
    let request = PendingRequest { message_type: REQUEST_TYPE, seq_num: 0 };
    let body = NODE_ID.to_le_bytes();
    let (events, owing) = incoming(
        &node,
        received(MessageType::DeviceInfoRequest, &body),
        Answer::SequencedReply(request),
    );
    assert_eq!(owing, NOTHING);
    assert_eq!(
        events,
        vec![Event::Reply {
            request,
            message_type: MessageType::DeviceInfoRequest,
            source: PEER_ID,
            payload: &body,
        }]
    );
}

#[test]
fn an_oversized_request_is_refused_before_it_is_recorded() {
    let largest = MTU - MIN_FRAME_WITH_ADDRESSES - BCMP_HEADER_LEN;
    assert_eq!(largest, 1447);
    let node = node();
    let over = vec![0u8; largest + 1];
    assert!(node.request(0, &LINK_LOCAL_MULTICAST, REQUEST_TYPE, &over).is_none());
    let fits = vec![0u8; largest];
    let exchange =
        node.request(0, &LINK_LOCAL_MULTICAST, REQUEST_TYPE, &fits).expect("it fits");
    let (_, _, owing) = drive(&node, exchange, &[Answer::SeqNum(Some(0))]);
    assert_eq!(reply(&owing).seq_num, 0);
    let mut tx = [0u8; MTU];
    assert_eq!(build_frame(&mut tx, &headers(), &fits), Some(MTU));
}

#[test]
fn the_ping_we_emit_carries_a_truncated_node_id_and_its_own_counter() {
    let mut node = node();
    assert_eq!(node.ping_sequence(), 0);
    let exchange = node
        .ping(0, &LINK_LOCAL_MULTICAST, PEER_ID, b"ping")
        .expect("it fits the slot");
    let (asked, _, owing) = drive(&node, exchange, &[Answer::SeqNum(Some(0))]);
    assert_eq!(
        asked,
        vec![Ask::Sequence {
            now_ms: 0,
            message_type: MessageType::EchoRequest,
            reply_seq_num: 0,
        }]
    );
    assert_eq!(
        reply(&owing).body,
        Body::EchoRequest(EchoRequest {
            target_node_id: PEER_ID,
            id: OUR_PING_ID,
            seq_num: 0,
            payload: b"ping",
        })
    );
    assert_eq!(node.expected_ping_payload(), Some(&b"ping"[..]));
    assert_eq!(node.ping_sequence(), 1);
}

#[test]
fn successive_pings_advance_a_sequence_space_of_their_own() {
    let mut node = node();
    for expected in 0..4u16 {
        let exchange = node.ping(0, &LINK_LOCAL_MULTICAST, 0, b"x").expect("sent");
        let (_, _, owing) = drive(&node, exchange, &[Answer::SeqNum(Some(0))]);
        assert_eq!(reply(&owing).seq_num, 0, "the header never counts");
        match reply(&owing).body {
            Body::EchoRequest(request) => assert_eq!(request.seq_num, expected),
            other => panic!("not a ping: {other:?}"),
        }
    }
    assert_eq!(node.ping_sequence(), 4);
}

fn pinged<'a>(
    node: &Node<TestIdentity, 64>,
    request: EchoRequest<'a>,
    answered: bool,
) -> Owing<'a> {
    let mut answers = vec![
        NEIGHBOR,
        Answer::Accepted(received(MessageType::EchoRequest, &[])),
        Answer::Process,
        Answer::Body(Decoded::EchoRequest(request)),
    ];
    if answered {
        answers.push(Answer::SeqNum(Some(0)));
    }
    drive(node, node.on_frame(0, 1), &answers).2
}

#[test]
fn an_echo_request_is_answered_with_the_same_bytes_back() {
    let node = node();
    let request = EchoRequest {
        target_node_id: NODE_ID,
        id: 0x1234,
        seq_num: 0xFEDC,
        payload: b"echo me",
    };
    let owing = pinged(&node, request, true);
    assert_eq!(
        reply(&owing),
        Draft {
            destination: LINK_LOCAL_MULTICAST,
            message_type: MessageType::EchoReply,
            seq_num: 0,
            mask: 0b11,
            body: Body::EchoReply(EchoReply {
                node_id: NODE_ID,
                id: 0x1234,
                seq_num: 0xFEDC,
                payload: b"echo me",
            }),
        }
    );
}

#[test]
fn a_ping_to_every_node_is_answered_and_one_to_another_node_is_not() {
    let node = node();
    let mut request = EchoRequest { target_node_id: 0, id: 1, seq_num: 1, payload: b"" };
    assert!(pinged(&node, request, true).reply.is_some());
    request.target_node_id = PEER_ID;
    assert!(pinged(&node, request, false).reply.is_none());
}

fn echoed<'a>(
    node: &Node<TestIdentity, 64>,
    now_ms: u32,
    reply: EchoReply<'a>,
    matches: bool,
) -> (Vec<Ask<'a>>, Vec<Event<'a>>) {
    let (asked, events, owing) = drive(
        node,
        node.on_frame(now_ms, 1),
        &[
            NEIGHBOR,
            Answer::Accepted(received(MessageType::EchoReply, &[])),
            Answer::Process,
            Answer::Body(Decoded::EchoReply(reply)),
            Answer::Flag(matches),
        ],
    );
    assert_eq!(owing, NOTHING);
    (asked, events)
}

#[test]
fn a_matching_echo_reply_is_reported_and_the_dispatch_is_reported_too() {
    let mut node = node();
    let _ = node.ping(1_000, &LINK_LOCAL_MULTICAST, PEER_ID, b"ping").expect("sent");
    let reply =
        EchoReply { node_id: PEER_ID, id: OUR_PING_ID, seq_num: 0, payload: b"ping" };
    let (asked, events) = echoed(&node, 1_042, reply, true);
    assert_eq!(asked[4], Ask::Match { our_id: OUR_PING_ID, reply });
    assert_eq!(
        events,
        vec![
            message(MessageType::EchoReply, &[]),
            Event::EchoReply { source: PEER_ID, reply, round_trip_ms: 42 },
        ]
    );
}

#[test]
fn a_reply_with_the_wrong_id_length_or_bytes_is_not_reported() {
    let mut node = node();
    let _ = node.ping(0, &LINK_LOCAL_MULTICAST, PEER_ID, b"ping").expect("sent");
    for reply in [
        EchoReply { node_id: PEER_ID, id: OUR_PING_ID ^ 1, seq_num: 0, payload: b"ping" },
        EchoReply { node_id: PEER_ID, id: OUR_PING_ID, seq_num: 0, payload: b"pin" },
        EchoReply { node_id: PEER_ID, id: OUR_PING_ID, seq_num: 0, payload: b"pong" },
    ] {
        let (_, events) = echoed(&node, 0, reply, false);
        assert_eq!(events, vec![message(MessageType::EchoReply, &[])]);
    }
}

#[test]
fn a_round_trip_survives_the_clock_wrapping() {
    let mut node = node();
    let _ = node.ping(u32::MAX - 9, &LINK_LOCAL_MULTICAST, PEER_ID, b"ping").expect("sent");
    let reply =
        EchoReply { node_id: PEER_ID, id: OUR_PING_ID, seq_num: 0, payload: b"ping" };
    let (_, events) = echoed(&node, 10, reply, true);
    assert_eq!(events[1], Event::EchoReply { source: PEER_ID, reply, round_trip_ms: 20 });
}

#[test]
fn the_last_pings_payload_answers_for_as_long_as_the_node_runs() {
    let mut node = node();
    let _ = node.ping(0, &LINK_LOCAL_MULTICAST, PEER_ID, b"ping").expect("sent");
    for now_ms in [10u32, 100_000, 3_600_000] {
        let reply =
            EchoReply { node_id: PEER_ID, id: OUR_PING_ID, seq_num: 0, payload: b"ping" };
        let (_, events) = echoed(&node, now_ms, reply, true);
        assert_eq!(events.len(), 2, "still accepted at {now_ms} ms");
    }
    assert_eq!(node.expected_ping_payload(), Some(&b"ping"[..]));
}

#[test]
fn a_payload_free_ping_is_answered_by_any_empty_reply() {
    let mut node = node();
    let _ = node.ping(0, &LINK_LOCAL_MULTICAST, 0, b"").expect("sent");
    assert_eq!(node.expected_ping_payload(), None);
    let reply = EchoReply { node_id: 0, id: OUR_PING_ID, seq_num: 4242, payload: b"" };
    let (_, events) = echoed(&node, 0, reply, true);
    assert_eq!(events.len(), 2);
}

#[test]
fn a_second_ping_forgets_the_first() {
    let mut node = node();
    let _ = node.ping(0, &LINK_LOCAL_MULTICAST, PEER_ID, b"first").expect("sent");
    let _ = node.ping(0, &LINK_LOCAL_MULTICAST, PEER_ID, b"second").expect("sent");
    assert_eq!(node.expected_ping_payload(), Some(&b"second"[..]));
}

#[test]
fn a_ping_longer_than_the_slot_is_refused_and_changes_nothing() {
    let mut node: Node<TestIdentity, 8> = Node::new(TestIdentity, PORTS);
    let _ = node
        .ping(0, &LINK_LOCAL_MULTICAST, PEER_ID, b"eight!!!")
        .expect("exactly the slot size fits");
    assert_eq!(node.ping_sequence(), 1);
    assert!(node.ping(0, &LINK_LOCAL_MULTICAST, PEER_ID, b"nine more").is_none());
    assert_eq!(node.ping_sequence(), 1, "the counter did not advance");
    assert_eq!(node.expected_ping_payload(), Some(&b"eight!!!"[..]));
}

#[test]
fn an_unregistered_echo_type_is_neither_sent_nor_answered() {
    let mut node = node();
    let exchange = node.ping(0, &LINK_LOCAL_MULTICAST, PEER_ID, b"x").expect("it fits");
    let (_, _, owing) = drive(&node, exchange, &[Answer::SeqNum(None)]);
    assert_eq!(owing, NOTHING);
    assert_eq!(node.ping_sequence(), 1, "the counter moved first");
    assert_eq!(node.expected_ping_payload(), Some(&b"x"[..]));
    let (events, owing) =
        incoming(&node, received(MessageType::EchoRequest, &[]), Answer::Unregistered);
    assert!(events.is_empty());
    assert_eq!(owing, NOTHING);
}

/// 2026-09-21T12:34:56.789Z.
const NOON_ISH: RtcTimeAndDate = RtcTimeAndDate {
    year: 2026,
    month: 9,
    day: 21,
    hour: 12,
    minute: 34,
    second: 56,
    ms: 789,
};

const NOON_ISH_S: u32 = 1_789_994_096;

fn time_message<'a>(
    node: &Node<TestIdentity, 64>,
    message_type: MessageType,
    target_node_id: u64,
    utc_time_us: Option<u64>,
    rest: &[Answer<'a>],
) -> (Vec<Ask<'a>>, Vec<Event<'a>>, Owing<'a>) {
    let header = SystemTimeHeader { target_node_id, source_node_id: PEER_ID };
    let mut answers = vec![
        NEIGHBOR,
        Answer::Accepted(received(message_type, &[0u8; 24])),
        Answer::Process,
        Answer::Body(Decoded::SystemTime { header, utc_time_us }),
    ];
    answers.extend_from_slice(rest);
    drive(node, node.on_frame(1000, 1), &answers)
}

fn response(utc_time_us: u64) -> Draft<'static> {
    Draft {
        destination: LINK_LOCAL_MULTICAST,
        message_type: MessageType::SystemTimeResponse,
        seq_num: 0,
        mask: 0b11,
        body: Body::SystemTime {
            header: SystemTimeHeader { target_node_id: PEER_ID, source_node_id: NODE_ID },
            utc_time_us,
        },
    }
}

#[test]
fn a_time_request_for_us_is_answered_from_the_clock() {
    let node = node();
    let clock = ClockReading { reading: NOON_ISH, seconds: NOON_ISH_S };
    let (asked, _, owing) = time_message(
        &node,
        MessageType::SystemTimeRequest,
        NODE_ID,
        None,
        &[Answer::Clock(Some(clock)), Answer::SeqNum(Some(0))],
    );
    assert_eq!(asked[4], Ask::ReadClock);
    assert_eq!(reply(&owing), response(1_789_994_096_789_000));
    assert!(owing.forward.is_none(), "addressed to us, so not forwarded");
}

#[test]
fn a_time_request_for_us_goes_unanswered_when_the_clock_is_unset() {
    let node = node();
    let (_, _, owing) = time_message(
        &node,
        MessageType::SystemTimeRequest,
        NODE_ID,
        None,
        &[Answer::Clock(None)],
    );
    assert_eq!(owing, NOTHING);
}

#[test]
fn a_broadcast_time_request_is_silently_dropped() {
    let node = node();
    let (asked, events, owing) =
        time_message(&node, MessageType::SystemTimeRequest, 0, None, &[]);
    assert_eq!(asked.len(), 4, "the clock is not even read");
    assert_eq!(events, vec![message(MessageType::SystemTimeRequest, &[0u8; 24])]);
    assert_eq!(owing, NOTHING);
}

#[test]
fn a_broadcast_time_set_is_honoured_and_answered() {
    let utc_time_us = 1_789_948_800_250_999;
    for target in [0, NODE_ID] {
        let node = node();
        let (asked, _, owing) = time_message(
            &node,
            MessageType::SystemTimeSet,
            target,
            Some(utc_time_us),
            &[Answer::Flag(true), Answer::SeqNum(Some(0))],
        );
        assert_eq!(asked[4], Ask::SetClock { utc_time_us });
        assert_eq!(reply(&owing), response(utc_time_us), "to the microsecond");
    }
    let mut clock = SoftRtc::at(NOON_ISH);
    let utc = UtcDateTime {
        year: 2026,
        month: 9,
        day: 21,
        hour: 0,
        min: 0,
        sec: 0,
        usec: 250_999,
    };
    assert!(clock.set(&RtcTimeAndDate::from_utc_micros(&utc)));
    assert_eq!(clock.get().expect("it was set").ms, 250, "keeping only the millisecond");
}

#[test]
fn a_set_that_the_clock_refuses_is_not_answered() {
    let node = node();
    let (_, _, owing) = time_message(
        &node,
        MessageType::SystemTimeSet,
        NODE_ID,
        Some(1_000_000),
        &[Answer::Flag(false)],
    );
    assert_eq!(owing, NOTHING);
    let mut clock = SoftRtc::read_only(NOON_ISH);
    assert!(!clock.set(&RtcTimeAndDate::default()));
    assert_eq!(clock.get(), Some(NOON_ISH), "and nothing moved");
}

#[test]
fn a_time_response_for_us_is_reported_and_not_answered() {
    let node = node();
    let (asked, events, owing) = time_message(
        &node,
        MessageType::SystemTimeResponse,
        NODE_ID,
        Some(42_000_000),
        &[],
    );
    assert_eq!(asked.len(), 4, "the clock is left alone");
    assert_eq!(events, vec![message(MessageType::SystemTimeResponse, &[0u8; 24])]);
    assert_eq!(owing, NOTHING);
}

#[test]
fn a_time_message_for_another_node_is_re_flooded() {
    for message_type in [
        MessageType::SystemTimeRequest,
        MessageType::SystemTimeResponse,
        MessageType::SystemTimeSet,
    ] {
        let node = node();
        let (asked, _, owing) =
            time_message(&node, message_type, THIRD_ID, Some(7_000_000), &[]);
        assert_eq!(asked.len(), 4, "a forwarded set is not applied on the way past");
        assert!(owing.reply.is_none() && owing.relay.is_none());
        let reflood = owing.forward.expect("it must be re-flooded");
        assert_eq!(
            reflood,
            Reflood { start: MIN_FRAME_WITH_ADDRESSES, end: 67 + 24, ingress_port: 1 }
        );
        let frame: Vec<u8> = (0..91).collect();
        assert_eq!(reflood.bcmp(&frame), &frame[54..]);
    }
}

#[test]
fn a_time_message_shorter_than_its_header_is_dropped() {
    let node = node();
    let (_, _, owing) = drive(
        &node,
        node.on_frame(1000, 1),
        &[
            NEIGHBOR,
            Answer::Accepted(received(MessageType::SystemTimeRequest, &[0; 15])),
            Answer::Process,
            Answer::Malformed,
        ],
    );
    assert_eq!(owing, NOTHING);
    // A set needs its timestamp too.
    let (asked, _, owing) = time_message(&node, MessageType::SystemTimeSet, NODE_ID, None, &[]);
    assert_eq!(asked.len(), 4);
    assert_eq!(owing, NOTHING);
}

#[test]
fn the_requests_we_issue_carry_what_the_c_puts_in_them() {
    let node = node();
    let utc_time_us = 1_789_948_800_250_999;
    let (_, _, owing) =
        drive(&node, node.request_system_time(1000, PEER_ID), &[Answer::SeqNum(Some(0))]);
    assert_eq!(
        reply(&owing),
        Draft {
            destination: LINK_LOCAL_MULTICAST,
            message_type: MessageType::SystemTimeRequest,
            seq_num: 0,
            mask: 0b11,
            body: Body::SystemTimeRequest(SystemTimeHeader {
                target_node_id: PEER_ID,
                source_node_id: NODE_ID,
            }),
        }
    );
    let (_, _, owing) =
        drive(&node, node.set_system_time(1000, 0, utc_time_us), &[Answer::SeqNum(Some(0))]);
    assert_eq!(
        reply(&owing),
        Draft {
            destination: LINK_LOCAL_MULTICAST,
            message_type: MessageType::SystemTimeSet,
            seq_num: 0,
            mask: 0b11,
            body: Body::SystemTime {
                header: SystemTimeHeader { target_node_id: 0, source_node_id: NODE_ID },
                utc_time_us,
            },
        }
    );
}

fn description<'a>(node_id: u64, version: &'a [u8], name: &'a [u8]) -> DeviceInfoReply<'a> {
    DeviceInfoReply {
        info: DeviceInfo {
            node_id,
            vendor_id: 0x1234,
            product_id: 0x5678,
            serial_num: *b"peer-serial-0001",
            git_sha: 0xABCD_EF01,
            ver_major: 9,
            ver_minor: 8,
            ver_rev: 7,
            ver_hw: 6,
        },
        version_string: version,
        device_name: name,
    }
}

fn described<'a>(
    node: &Node<TestIdentity, 64>,
    reply: DeviceInfoReply<'a>,
    rest: &[Answer<'a>],
) -> (Vec<Ask<'a>>, Vec<Event<'a>>) {
    let mut answers = vec![
        NEIGHBOR,
        Answer::Accepted(received(MessageType::DeviceInfoReply, &[])),
        Answer::Process,
        Answer::Body(Decoded::DeviceInfo(reply)),
    ];
    answers.extend_from_slice(rest);
    let (asked, events, owing) = drive(node, node.on_frame(10, 1), &answers);
    assert_eq!(owing, NOTHING, "a reply is answered with nothing");
    (asked, events)
}

#[test]
fn a_reply_to_the_request_a_heartbeat_provoked_is_cached() {
    let node = node();
    let reply = description(PEER_ID, b"1.2.3", b"peer");
    let (asked, events) = described(
        &node,
        reply,
        &[Answer::Kind(Some(InfoRequestKind::Cache)), Answer::Flag(true), Answer::Done],
    );
    assert_eq!(
        &asked[4..],
        &[
            Ask::Take { node_id: PEER_ID },
            Ask::Find { node_id: PEER_ID },
            Ask::Store { reply },
        ]
    );
    assert_eq!(events, vec![message(MessageType::DeviceInfoReply, &[])]);
}

#[test]
fn a_reply_nothing_asked_for_is_dropped() {
    let node = node();
    let (asked, events) =
        described(&node, description(PEER_ID, b"9.9.9", b"other"), &[Answer::Kind(None)]);
    assert_eq!(asked.len(), 5, "it never reaches the neighbour table");
    assert_eq!(events.len(), 1);
}

#[test]
fn a_reply_from_a_node_that_is_not_a_neighbour_is_kept_nowhere() {
    let node = node();
    let (asked, _) = described(
        &node,
        description(PEER_ID, b"1.2.3", b"peer"),
        &[Answer::Kind(Some(InfoRequestKind::Cache)), Answer::Flag(false)],
    );
    assert_eq!(asked[4], Ask::Take { node_id: PEER_ID }, "the request is consumed all the same");
    assert_eq!(asked.len(), 6);
}

#[test]
fn a_reported_request_reaches_the_application_instead_of_the_cache() {
    let node = node();
    let reply = description(PEER_ID, b"4.5.6", b"renamed");
    let (asked, events) =
        described(&node, reply, &[Answer::Kind(Some(InfoRequestKind::Report))]);
    assert_eq!(asked.len(), 5, "the cache is left alone");
    assert_eq!(events[1], Event::DeviceInfo { source: PEER_ID, reply });
}

fn restarted<'a>(node: &Node<TestIdentity, 64>, cached: Option<u64>) -> Owing<'a> {
    let (asked, _, owing) = drive(
        node,
        node.on_frame(10, 1),
        &[
            NEIGHBOR,
            Answer::Accepted(received(MessageType::Heartbeat, &[])),
            Answer::Process,
            Answer::Body(Decoded::Heartbeat(heartbeat(1_000))),
            heard(true, true),
            Answer::NodeId(cached),
            Answer::Flag(true),
            Answer::Flag(true),
            Answer::SeqNum(Some(0)),
        ],
    );
    assert_eq!(asked[5], Ask::Recall { node_id: PEER_ID });
    owing
}

#[test]
fn a_restart_asks_about_the_node_id_the_cache_holds() {
    let node = node();
    let (_, _, owing) = drive(&node, node.on_frame(0, 1), &new_peer());
    assert_eq!(reply(&owing).body, Body::Target(PEER_ID));
    assert_eq!(reply(&restarted(&node, None)).body, Body::Target(0), "nothing is cached");
    assert_eq!(reply(&restarted(&node, Some(PEER_ID))).body, Body::Target(PEER_ID));
}

#[test]
fn evicting_a_neighbour_forgets_what_it_reported() {
    const OTHER_ID: u64 = 0x0000_0000_55AA_0022;
    let node = node();
    let mut other = received(MessageType::Heartbeat, &[]);
    other.source = OTHER_ID;
    let (asked, _, owing) = drive(
        &node,
        node.on_frame(20, 1),
        &[
            NEIGHBOR,
            Answer::Accepted(other),
            Answer::Process,
            Answer::Body(Decoded::Heartbeat(heartbeat(1_000_000))),
            Answer::Heard(Heard { evicted: Some(PEER_ID), request_info: true, reset: false }),
            Answer::Done,
            Answer::Flag(true),
            Answer::Flag(true),
            Answer::SeqNum(Some(0)),
        ],
    );
    assert_eq!(asked[5], Ask::Forget { node_id: PEER_ID });
    assert_eq!(reply(&owing).body, Body::Target(OTHER_ID));
}

#[test]
fn an_unregistered_request_type_records_nothing() {
    let node = node();
    let exchange = node.request_device_info(0, PEER_ID, InfoRequestKind::Cache);
    let (asked, _, owing) = drive(
        &node,
        exchange,
        &[
            Answer::Flag(true),
            Answer::Flag(false),
            Answer::Kind(Some(InfoRequestKind::Cache)),
        ],
    );
    assert_eq!(
        asked,
        vec![
            Ask::Record { node_id: PEER_ID, kind: InfoRequestKind::Cache },
            Ask::Registered { message_type: MessageType::DeviceInfoRequest },
            Ask::Take { node_id: PEER_ID },
        ]
    );
    assert_eq!(owing, NOTHING);

    // What was not recorded is not withdrawn.
    let exchange = node.request_device_info(0, PEER_ID, InfoRequestKind::Report);
    let (asked, _, owing) =
        drive(&node, exchange, &[Answer::Flag(false), Answer::Flag(false)]);
    assert_eq!(asked.len(), 2);
    assert_eq!(owing, NOTHING);
}

#[test]
fn a_full_request_list_does_not_keep_the_request_from_going_out() {
    let node = node();
    let exchange = node.request_device_info(0, PEER_ID, InfoRequestKind::Cache);
    let (_, _, owing) = drive(
        &node,
        exchange,
        &[Answer::Flag(false), Answer::Flag(true), Answer::SeqNum(Some(0))],
    );
    assert_eq!(reply(&owing).body, Body::Target(PEER_ID));
}

#[test]
fn links_are_kept_per_port() {
    let mut node = node();
    assert_eq!(node.port_count(), PORTS);
    assert_eq!(node.identity().node_id(), NODE_ID);
    node.set_link_up(16, true);
    node.set_link_up(0, true);
    node.set_link_up(17, true);
    assert!(node.link_up(16));
    assert!(!node.link_up(0) && !node.link_up(17) && !node.link_up(1));
    assert!(node.addressed_to_us(0) && node.addressed_to_us(NODE_ID));
    assert!(!node.addressed_to_us(PEER_ID));
}

#[test]
fn a_mock_replays_its_script_and_records_what_is_sent() {
    let mut phy = MockPhy::new(
        PORTS,
        vec![
            Script::Receive { port: 1, frame: vec![1, 2, 3] },
            Script::Idle { ms: 60 },
        ],
    );
    assert_eq!(phy.port_count(), 2);
    assert!(phy.link_up(1) && phy.link_up(2) && !phy.link_up(3) && !phy.link_up(0));
    phy.set_link_up(2, false);
    assert!(!phy.link_up(2));
    let mut buf = [0u8; 2];
    assert_eq!(phy.receive(&mut buf), Ok(Replayed::Frame { port: 1, len: 2 }));
    assert_eq!(buf, [1, 2]);
    assert_eq!(phy.receive(&mut buf), Ok(Replayed::Idle { ms: 60 }));
    assert_eq!(phy.receive(&mut buf), Err(MockError::ScriptFinished));
    phy.send(&[1], Egress::AllPorts);
    phy.send(&[2], Egress::Port(2));
    phy.send(&[3], Egress::AllPorts);
    assert_eq!(phy.sent.len(), 3);
    assert_eq!(phy.sent_to(Egress::AllPorts), vec![&[1u8][..], &[3u8][..]]);
}

/// Answer whatever is asked, in the way that leads furthest.
fn obliging<'a>(ask: &Ask<'a>, received: Received<'a>, decoded: Decoded<'a>) -> Answer<'a> {
    match ask {
        Ask::Route { .. } => FLOODED,
        Ask::Accept => Answer::Accepted(received),
        Ask::Lookup { .. } => Answer::Process,
        Ask::Decode { .. } => Answer::Body(decoded),
        Ask::Hear { .. } => heard(true, false),
        Ask::Recall { .. } => Answer::NodeId(Some(PEER_ID)),
        Ask::Take { .. } => Answer::Kind(Some(InfoRequestKind::Report)),
        Ask::ReadClock => Answer::Clock(Some(ClockReading {
            reading: RtcTimeAndDate {
                year: 1970,
                month: 1,
                day: 1,
                hour: 0,
                minute: 0,
                second: 5,
                ms: 6,
            },
            seconds: 5,
        })),
        Ask::Sequence { .. } => Answer::SeqNum(Some(9)),
        Ask::Forget { .. } | Ask::Store { .. } | Ask::Age { .. } | Ask::Sweep { .. } => {
            Answer::Done
        }
        _ => Answer::Flag(true),
    }
}

/// Run an exchange to its end. How many questions it asked, what it reported
/// and what it owes.
fn obliged<'a>(
    message_type: MessageType,
    decoded: Decoded<'a>,
) -> (usize, Vec<Event<'a>>, Owing<'a>) {
    let node = node();
    let mut exchange = node.on_frame(77, 1);
    let mut events = Vec::new();
    for asked in 1..=10 {
        let ask = node.ask(&exchange);
        let answer = obliging(&ask, received(message_type, &[]), decoded);
        let progress = node.resume(exchange, answer);
        events.extend(progress.event);
        match progress.next {
            Next::Continue(next) => exchange = next,
            Next::Finished(owing) => return (asked, events, owing),
        }
    }
    panic!("a frame costs at most ten questions");
}

#[test]
fn each_message_is_answered_by_the_reply_of_its_kind_alone() {
    let header = SystemTimeHeader { target_node_id: NODE_ID, source_node_id: PEER_ID };
    let time = Decoded::SystemTime { header, utc_time_us: Some(1) };
    let echo_request =
        EchoRequest { target_node_id: 0, id: 1, seq_num: 2, payload: &[] };
    let echo_reply = EchoReply { node_id: PEER_ID, id: 1, seq_num: 2, payload: &[] };
    let cases = [
        (
            MessageType::DeviceInfoRequest,
            Decoded::Target(0),
            Some(MessageType::DeviceInfoReply),
            1,
        ),
        (
            MessageType::NeighborTableRequest,
            Decoded::Target(NODE_ID),
            Some(MessageType::NeighborTableReply),
            1,
        ),
        (
            MessageType::EchoRequest,
            Decoded::EchoRequest(echo_request),
            Some(MessageType::EchoReply),
            1,
        ),
        (MessageType::SystemTimeRequest, time, Some(MessageType::SystemTimeResponse), 1),
        (MessageType::SystemTimeSet, time, Some(MessageType::SystemTimeResponse), 1),
        (
            MessageType::Heartbeat,
            Decoded::Heartbeat(heartbeat(5)),
            Some(MessageType::DeviceInfoRequest),
            1,
        ),
        (MessageType::SystemTimeResponse, time, None, 1),
        (MessageType::EchoReply, Decoded::EchoReply(echo_reply), None, 2),
        (
            MessageType::DeviceInfoReply,
            Decoded::DeviceInfo(description(PEER_ID, b"v", b"n")),
            None,
            2,
        ),
        (MessageType::ConfigGet, time, None, 1),
    ];
    for (message_type, decoded, sent, told) in cases {
        let (asked, events, owing) = obliged(message_type, decoded);
        assert!(asked <= 10, "{message_type:?}");
        assert_eq!(owing.reply.map(|draft| draft.message_type), sent, "{message_type:?}");
        assert_eq!(events.len(), told, "{message_type:?}");
        assert_eq!(events[0], message(message_type, &[]));
        // Whatever came of it, the frame is relayed as the policy said.
        assert_eq!(owing.relay, Some(0b10), "{message_type:?}");
        assert!(owing.forward.is_none(), "{message_type:?}");
    }
}
