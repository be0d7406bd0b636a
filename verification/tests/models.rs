//! The models the comparators keep of the reference, and the verdicts that
//! rest on them.

use bm_stack::diff::compare::Captured;
use bm_stack::diff::info::{
    answer_everything_outstanding, check_reported as check_described, check_requests,
    compare_caches, device_info, heartbeat, kind_of, name as device_name, peer_frame, reply,
    version, Cached, InfoDivergence, OracleRequests, Room, Step as InfoStep,
};
use bm_stack::diff::messages::{
    build_request as build_asking, check as check_messages, check_device_info,
    check_neighbor_table, BcmpMessagesInput, Decoded, MessagesDivergence, ReplySeen, Request,
};
use bm_stack::diff::neighbor::{
    check_step as check_neighbors, compare as compare_tables, Discoveries, Neighbor,
    NeighborDivergence, NeighborSeen,
};
use bm_stack::diff::neighbor_table::{
    check_step as check_table, neighbor_entries, port_entries, same_reports, same_state,
    Model as TableModel, Reported as TableReported, RequesterState, TableDivergence, TableSeen,
};
use bm_stack::diff::ping::{
    build_request as build_ping, check_reply, check_request, compare_transmitted,
    decoders_agree, egress_ports, PingDivergence, PingInput, Probed, Target,
};
use bm_stack::diff::registry::{
    body_for, check_drained, draining_sweeps, message_type, same_events, Delivery,
    DrainDivergence, Event, Expiry, Leftovers, NodeSent, Outstanding, PacketCfg, ReferenceSent,
    Resume, SendDivergence, SentDivergence, SentSeen, SeqChoice, Step as RegistryStep,
    UnknownRequest,
};
use bm_stack::diff::resource::{
    assert_lists, built_by_the_oracle, check_add, check_built, check_find, check_reported,
    drain_requests, expected_report, is_ours, kind_of as resource_kind, name, ListsSeen, Model,
    Reported, ResourceDivergence, ResourceType, Step,
};
use bm_stack::diff::stack::{
    is_quiet, node, CapturePhy, OracleIdentity, Unreachable, DEVICE_NAME, NODE_ID, VERSION_STRING,
};
use bm_stack::diff::time::{
    build_frame, check as check_time, read_back, ReadBack, Sighting, Target as TimeTarget,
    TimeDivergence, TimeInput, TimeMessage, TimeSeen, Verdict,
};
use bm_stack::links::{first_ports, is_in_mask, port_mask, with_link};
use bm_stack::message::{
    EchoReply, EchoRequest, InfoRequestKind, MessageType, PortInfo, SystemTimeHeader,
};
use bm_stack::node::NeighborTableReply;
use bm_stack::port::{Egress, Identity, Phy};

fn captured(port: u8, bytes: &[u8]) -> Captured {
    (port, bytes.to_vec())
}

#[test]
fn a_registered_type_says_how_it_is_followed() {
    let request = PacketCfg { sequenced_reply: false, sequenced_request: true };
    let reply = PacketCfg { sequenced_reply: true, sequenced_request: false };
    assert_eq!(message_type(0), (MessageType::ConfigGet, Some(request)));
    assert_eq!(message_type(4), (MessageType::ConfigValue, Some(reply)));
    assert_eq!(message_type(10), (MessageType::Other(0x4242), None));
    assert_eq!(SeqChoice::Raw(9).resolve(&[1, 2]), 9);
    assert_eq!(SeqChoice::Outstanding(5).resolve(&[1, 2]), 2);
    assert_eq!(SeqChoice::Outstanding(5).resolve(&[]), 0);
    assert_eq!(body_for(3, 4), [93, 94, 95, 96]);
    assert_eq!(draining_sweeps(3), 5);
}

#[test]
fn a_registry_step_is_clamped() {
    assert_eq!(
        RegistryStep::Advance { ms: 2_000_000 }.clamp(),
        RegistryStep::Advance { ms: 2_000_000 % 1_001 }
    );
    assert_eq!(RegistryStep::Advance { ms: 7 }.clamp(), RegistryStep::Advance { ms: 7 });
}

#[test]
fn the_sweep_timer_keeps_its_phase() {
    let mut resume = Resume::new();
    let start = resume.next_sweep_ms;
    resume.advance_timer(start.wrapping_sub(1));
    assert_eq!(resume.next_sweep_ms, start, "not due yet");
    resume.advance_timer(start);
    assert_eq!(resume.next_sweep_ms, start.wrapping_add(150));
    resume.advance_timer(start.wrapping_add(150 * 7 + 20));
    assert_eq!(resume.next_sweep_ms, start.wrapping_add(150 * 8));
    let now = start.wrapping_add(150 * 8 - 100);
    assert_eq!(resume.alignment(now, 30), 70, "thirty milliseconds before the sweep");
    assert_eq!(resume.alignment(now, 120), 130, "and where that has passed, before the next");
}

#[test]
fn the_sweep_timer_survives_the_clock_wrapping() {
    let mut resume = Resume { sequence_count: 4, next_sweep_ms: u32::MAX - 49 };
    resume.advance_timer(10);
    assert_eq!(resume.next_sweep_ms, 100);
    assert_eq!(resume.sequence_count, 4);
}

fn sequenced() -> PacketCfg {
    PacketCfg { sequenced_reply: false, sequenced_request: true }
}

#[test]
fn an_answered_request_reports_to_whoever_sent_it() {
    let mut resume = Resume { sequence_count: 5, next_sweep_ms: 0 };
    let mut outstanding = Outstanding::new();
    assert!(outstanding.is_empty());
    assert!(!outstanding.declines(Some(sequenced())));
    assert_eq!(outstanding.on_sent(&mut resume, sequenced(), 5, true, true), Ok(()));
    assert_eq!(resume.sequence_count, 6);
    assert_eq!(
        outstanding.on_sent(&mut resume, sequenced(), 5, true, true),
        Err(SendDivergence::Sequence { node: 5, reference: 6 })
    );
    assert_eq!(
        outstanding.on_sent(&mut resume, sequenced(), 6, false, true),
        Err(SendDivergence::Tracking { node: false })
    );
    assert_eq!(outstanding.on_sent(&mut resume, sequenced(), 6, true, false), Ok(()));

    let events = outstanding
        .on_received(Delivery::SequencedReply(5), MessageType::ConfigValue, 5, &[1, 2])
        .expect("it is outstanding");
    assert!(same_events(&events, &[Event::Reply { slot: 0, payload: vec![1, 2] }]));
    let events = outstanding
        .on_received(Delivery::SequencedReply(6), MessageType::ConfigValue, 6, &[3])
        .expect("so is this one");
    let process = Event::Process {
        message_type: MessageType::ConfigValue,
        seq_num: 6,
        payload: vec![3],
    };
    assert!(same_events(&events, &[process]), "without a callback it is processed");
    assert!(outstanding.is_empty());
    assert_eq!(
        outstanding
            .on_received(Delivery::SequencedReply(6), MessageType::ConfigValue, 6, &[])
            .err(),
        Some(UnknownRequest { seq_num: 6 })
    );
    let nothing = outstanding
        .on_received(Delivery::Unregistered, MessageType::Other(0x4242), 0, &[])
        .expect("nothing is looked up");
    assert!(nothing.is_empty());
}

#[test]
fn a_sweep_retries_and_then_gives_up() {
    let mut resume = Resume { sequence_count: 0, next_sweep_ms: 0 };
    let mut outstanding = Outstanding::new();
    for seq in 0..3 {
        assert_eq!(outstanding.on_sent(&mut resume, sequenced(), seq, true, seq != 1), Ok(()));
    }
    let events = outstanding
        .sweep(&[Expiry::Retry(0), Expiry::TimedOut(1), Expiry::TimedOut(2)])
        .expect("all three are outstanding");
    assert!(same_events(
        &events,
        &[Event::Resent { seq_num: 0 }, Event::ProcessTimedOut, Event::TimedOut { slot: 2 }]
    ));
    assert!(!outstanding.is_empty());
    assert_eq!(
        outstanding.sweep(&[Expiry::TimedOut(2)]).err(),
        Some(UnknownRequest { seq_num: 2 })
    );
    assert!(!Event::TimedOut { slot: 1 }.same(&Event::TimedOut { slot: 2 }));
}

#[test]
fn a_list_whose_tail_dangles_takes_no_more_requests() {
    let mut resume = Resume { sequence_count: 0, next_sweep_ms: 0 };
    let mut outstanding = Outstanding::new();
    for seq in 0..3 {
        assert_eq!(outstanding.on_sent(&mut resume, sequenced(), seq, true, true), Ok(()));
    }
    for seq in [1, 2] {
        assert!(outstanding
            .on_received(Delivery::SequencedReply(seq), MessageType::ConfigValue, seq, &[])
            .is_ok());
    }
    assert!(outstanding.declines(Some(sequenced())));
    assert!(!outstanding.declines(None), "an untracked message appends nothing");
}

#[test]
fn a_ping_is_compared_port_by_port() {
    assert_eq!(egress_ports(false), [1, 2]);
    assert_eq!(egress_ports(true).len(), 1);
    let a = [vec![1u8], vec![2u8]];
    let b = [vec![1u8], vec![3u8]];
    assert_eq!(compare_transmitted(false, &a, &a), Ok(()));
    assert_eq!(
        compare_transmitted(false, &a[..1], &a),
        Err(PingDivergence::Copies { reference: 1 })
    );
    assert_eq!(
        compare_transmitted(false, &a, &b),
        Err(PingDivergence::Byte { index: 1, at: 0 })
    );
    let for_us = PingInput::from_seed(&[1]);
    assert_eq!(check_request(&for_us, &a, Some(&a)), Ok(()));
    assert_eq!(check_request(&for_us, &a, None), Err(PingDivergence::NotSent));
    assert_eq!(check_reply(&for_us, &a, None), Err(PingDivergence::NotAnswered));
    let for_another = PingInput::from_seed(&[2]);
    assert_eq!(for_another.target, Target::OtherNode);
    assert_eq!(check_reply(&for_another, &[], None), Ok(()));
    assert_eq!(
        check_reply(&for_another, &a, None),
        Err(PingDivergence::ReferenceAnswered)
    );
    assert_eq!(
        check_reply(&for_another, &[], Some(&a)),
        Err(PingDivergence::NodeAnswered)
    );
}

#[test]
fn a_ping_request_carries_its_payload() {
    let input = PingInput::from_seed(&[0, 1, 0, 0x34, 0x12, 0x78, 0x56, 0, 9, 8, 2]);
    assert_eq!(input.payload, [9, 8]);
    let request = input.request();
    assert_eq!((request.id, request.seq_num, request.payload), (0x1234, 0x5678, &[9u8, 8][..]));
    let unsealed = build_ping(&input, vec![0xEE; 16], &[1; 16], 0xBC);
    assert_eq!(unsealed.message_type, MessageType::EchoRequest);
    assert_eq!(unsealed.frame.len(), 54 + 13 + 16);
    assert_eq!(unsealed.body, vec![0xEE; 16]);
    let silent = PingInput::from_seed(&[0, 1, 0, 0, 0, 0, 0, 1, 9, 8, 2]);
    assert!(silent.sent_payload().is_empty(), "no payload is sent where none is given");

    let mut long = PingInput::from_seed(&[0, 1, 0, 0, 0, 0, 0, 0, 9, 8, 2]);
    long.payload = vec![5; 300];
    assert_eq!(long.request().payload, &[5u8; 256][..], "no more than the domain holds");
    let unsealed = build_ping(&long, vec![0xEE; 14 + 256], &[1; 16], 0xBC);
    assert_eq!(unsealed.frame.len(), 54 + 13 + 14 + 256);
}

#[test]
fn a_request_and_a_reply_have_one_layout() {
    let bytes = [1u8, 2, 3];
    let request = EchoRequest { target_node_id: 5, id: 6, seq_num: 7, payload: &[8] };
    let reply = EchoReply { node_id: 5, id: 6, seq_num: 7, payload: &[8] };
    assert_eq!(request.into_reply(5), reply);
    let both = Probed { request: Some((request, vec![1, 2])), reply: Some(reply) };
    assert!(decoders_agree(&bytes, &both));
    assert!(decoders_agree(&bytes, &Probed { request: None, reply: None }));
    assert!(!decoders_agree(&bytes, &Probed { request: None, reply: Some(reply) }));
    let torn = Probed { request: Some((request, vec![2])), reply: Some(reply) };
    assert!(!decoders_agree(&bytes, &torn));
    let other = EchoReply { seq_num: 8, ..reply };
    let differs = Probed { request: Some((request, vec![1, 2])), reply: Some(other) };
    assert!(!decoders_agree(&bytes, &differs));
}

fn described() -> ReplySeen<'static> {
    ReplySeen {
        body: vec![1, 2, 3],
        decoded: Decoded::DeviceInfo(bm_stack::message::DeviceInfoReply {
            info: OracleIdentity.device_info(),
            version_string: &VERSION_STRING,
            device_name: &DEVICE_NAME,
        }),
        again: vec![1, 2, 3],
    }
}

#[test]
fn a_reply_must_say_what_the_reference_was_set_up_with() {
    let mut info = OracleIdentity.device_info();
    info.node_id = NODE_ID;
    let right = bm_stack::message::DeviceInfoReply {
        info,
        version_string: &VERSION_STRING,
        device_name: &DEVICE_NAME,
    };
    assert!(check_device_info(&right));
    let wrong = bm_stack::message::DeviceInfoReply { device_name: b"else", ..right };
    assert!(!check_device_info(&wrong));
    let port = PortInfo { state: 1, port_type: 0 };
    let table =
        NeighborTableReply { node_id: NODE_ID, ports: vec![port, port], neighbors: vec![] };
    assert!(check_neighbor_table(&table));
    let down = PortInfo { state: 0, port_type: 0 };
    let table =
        NeighborTableReply { node_id: NODE_ID, ports: vec![port, down], neighbors: vec![] };
    assert!(!check_neighbor_table(&table));
}

#[test]
fn a_request_is_answered_once_per_port() {
    let mut first = described();
    if let Decoded::DeviceInfo(reply) = &mut first.decoded {
        reply.info.node_id = NODE_ID;
    }
    assert!(first.is_right(Request::DeviceInfo));
    assert!(!first.is_right(Request::NeighborTable));
    let garbled = ReplySeen { body: vec![1], decoded: Decoded::Garbled, again: vec![] };
    let for_us = BcmpMessagesInput::from_seed(&[1, 1, 1, 0]);
    assert_eq!(for_us.request, Request::DeviceInfo);
    assert_eq!(
        check_messages(&for_us, &[]),
        Err(MessagesDivergence::Replies { count: 0 })
    );
    assert_eq!(
        check_messages(&for_us, &[garbled, described()]),
        Err(MessagesDivergence::Reply { index: 0 })
    );
    let for_another = BcmpMessagesInput::from_seed(&[1, 2, 1, 0]);
    assert_eq!(check_messages(&for_another, &[]), Ok(()));
    assert_eq!(
        check_messages(&for_another, &[described()]),
        Err(MessagesDivergence::Answered)
    );
    let asking = build_asking(&for_us, &[1; 16], 0xBC);
    assert_eq!(asking.message_type, MessageType::DeviceInfoRequest);
    assert_eq!(asking.body, NODE_ID.to_le_bytes());
}

#[test]
fn a_reply_that_differs_between_ports_is_torn() {
    let mut first = described();
    let mut second = described();
    for seen in [&mut first, &mut second] {
        if let Decoded::DeviceInfo(reply) = &mut seen.decoded {
            reply.info.node_id = NODE_ID;
        }
    }
    second.body = vec![1, 2, 4];
    second.again = vec![1, 2, 4];
    let for_us = BcmpMessagesInput::from_seed(&[1, 1, 1, 0]);
    assert_eq!(
        check_messages(&for_us, &[first, second]),
        Err(MessagesDivergence::Torn { index: 1 })
    );
}

#[test]
fn the_reference_keeps_the_low_half_of_an_id() {
    let mut requests = OracleRequests::default();
    assert_eq!(requests.oldest(), None);
    requests.added(0xDEAD_BEEF_55AA_0011);
    requests.added(7);
    assert_eq!(requests.oldest(), Some(0x55AA_0011));
    requests.answered(0x55AA_0011);
    assert_eq!(requests.oldest(), Some(7), "another id with the same low half answers it");
    requests.answered(99);
    assert_eq!(requests.oldest(), Some(7));
    requests.added(8);
    assert_eq!(answer_everything_outstanding(&mut requests), [7, 8]);
    assert_eq!(requests.oldest(), None);
    assert!(!requests.add_is_undefined());
}

#[test]
fn a_step_that_asks_is_declined_while_the_tail_dangles() {
    let mut requests = OracleRequests::default();
    for id in [1, 2, 3] {
        requests.added(id);
    }
    requests.answered(2);
    requests.answered(3);
    assert!(requests.add_is_undefined());
    assert!(requests.declines(&InfoStep::Request { node: 0, report: true }));
    assert!(!requests.declines(&InfoStep::Advance { ms: 1 }));
}

#[test]
fn a_device_is_described_by_its_revision() {
    let info = device_info(5, 255);
    assert_eq!((info.vendor_id, info.product_id), (0xBEFF, 0x013F));
    assert_eq!(info.serial_num, [255; 16]);
    assert_eq!(info.git_sha, 0x1234_00FF);
    assert_eq!((info.ver_major, info.ver_minor, info.ver_rev, info.ver_hw), (255, 0, 1, 2));
    let said = reply(5, 6, 1);
    assert_eq!((said.version_string, said.device_name), (&b"0.1.0"[..], &b"bm_sbc"[..]));
    assert_eq!(version(2), b"1.2.3-rc1");
    assert_eq!(device_name(3), b"dev-kit");
    assert!(version(0).is_empty() && device_name(0).is_empty());
    assert_eq!(heartbeat(9).time_since_boot_us, 9);
    assert_eq!(kind_of(true), InfoRequestKind::Report);
    assert_eq!(kind_of(false), InfoRequestKind::Cache);
    let frame = peer_frame(&[1; 16], MessageType::Heartbeat, vec![1, 2], 0xBC);
    assert_eq!(frame.frame.len(), 54 + 13 + 2);
}

#[test]
fn a_request_both_sides_sent_is_remembered() {
    let copies = [captured(1, &[1]), captured(2, &[1])];
    let mut requests = OracleRequests::default();
    assert!(check_requests(&mut requests, &[5, 5], &copies, Some(&copies)).is_ok());
    assert_eq!(requests.oldest(), Some(5));
    assert!(check_requests(&mut requests, &[5, 5], &copies, None).is_err());
    assert!(check_requests(&mut requests, &[], &[], None).is_ok());
    requests.answered(5);
    assert_eq!(requests.oldest(), None);

    // A list whose tail dangles is no matter to a step that asks nobody.
    for target in [1, 2, 3] {
        requests.added(target);
    }
    requests.answered(2);
    requests.answered(3);
    assert!(requests.add_is_undefined());
    assert!(check_requests(&mut requests, &[], &[], None).is_ok());
    assert!(check_requests(&mut requests, &[5, 5], &copies, None).is_err());
}

#[test]
fn what_is_known_of_a_neighbour_is_compared() {
    let known = Cached::of(&reply(7, 1, 1));
    let other = Cached::of(&reply(7, 2, 1));
    assert!(known.same(&Cached::of(&reply(7, 1, 1))) && !known.same(&other));
    assert!(check_described(&[], &[]).is_ok());
    assert_eq!(
        check_described(&[Cached::of(&reply(7, 1, 1))], &[Cached::of(&reply(8, 1, 1))]),
        Err(InfoDivergence::Reported)
    );
    let room = Room { requests: 0, request_capacity: 2, cached: 1, cache_capacity: 2 };
    let reference = [(7u64, Cached::of(&reply(7, 1, 1))), (8, Cached::default())];
    let ours = [Some(Cached::of(&reply(7, 1, 1))), None];
    assert_eq!(compare_caches(room, &reference, &ours, &[7]), Ok(()));
    assert_eq!(
        compare_caches(Room { requests: 2, ..room }, &reference, &ours, &[7]),
        Err(InfoDivergence::RequestsFull)
    );
    assert_eq!(
        compare_caches(Room { cached: 2, ..room }, &reference, &ours, &[7]),
        Err(InfoDivergence::CacheFull)
    );
    assert_eq!(
        compare_caches(room, &reference, &[None, None], &[7]),
        Err(InfoDivergence::Known { node_id: 7 })
    );
    assert_eq!(
        compare_caches(room, &reference, &ours, &[7, 9]),
        Err(InfoDivergence::Stray { node_id: 9 })
    );
}

fn neighbor(node_id: u64) -> Neighbor {
    Neighbor {
        node_id,
        port: 1,
        last_heartbeat_ms: 2,
        last_time_since_boot_us: 3,
        heartbeat_period_s: 4,
        online: true,
    }
}

#[test]
fn neighbour_tables_are_compared_entry_by_entry() {
    let table = vec![neighbor(1), neighbor(2)];
    assert_eq!(compare_tables(&table, &table), Ok(()));
    assert_eq!(
        compare_tables(&table, &[neighbor(1), neighbor(3)]),
        Err(NeighborDivergence::Table { index: 1 })
    );
    assert_eq!(
        compare_tables(&table, &table[..1]),
        Err(NeighborDivergence::Table { index: 1 })
    );
    let mut announced = Discoveries::default();
    announced.announce(true);
    announced.announce(false);
    announced.announce(true);
    let taken = announced.take();
    assert_eq!((taken.appeared, taken.lost), (2, 1));
    assert_eq!(announced, Discoveries::default());
    // A count at its end is no matter to the other.
    let mut worn = Discoveries { appeared: u32::MAX, lost: 0 };
    worn.announce(false);
    assert_eq!(worn, Discoveries { appeared: u32::MAX, lost: 1 });
    let seen = |clock_moved, table_full, expected| NeighborSeen {
        clock_moved,
        table_full,
        reference: vec![neighbor(1)],
        node: vec![neighbor(1)],
        announced: taken,
        expected,
    };
    assert_eq!(check_neighbors(&seen(false, false, taken)), Ok(()));
    assert_eq!(check_neighbors(&seen(true, true, taken)), Err(NeighborDivergence::Clock));
    assert_eq!(check_neighbors(&seen(false, true, taken)), Err(NeighborDivergence::Full));
    assert_eq!(
        check_neighbors(&seen(false, false, Discoveries::default())),
        Err(NeighborDivergence::Discoveries)
    );
}

#[test]
fn a_table_request_is_answered_once_and_times_out_once() {
    let mut model = TableModel::default();
    model.record(10, 7, true);
    assert!(!model.accept(8), "another node's reply");
    assert!(model.accept(7));
    assert!(!model.accept(7), "it has been answered");
    model.record(20, 7, true);
    assert!(!model.advance(5));
    assert!(model.advance(0));
    assert!(!model.advance(0), "the timer has run");
    assert!(model.accept(7), "a late reply is still heard");
    model.record(30, 7, false);
    assert!(!model.accept(7), "nothing was asked to be reported");
}

#[test]
fn entries_are_made_up_from_a_revision() {
    let ports = port_entries(2, 1);
    assert_eq!((ports[0].state, ports[1].state), (1, 0));
    let neighbors = neighbor_entries(2, 255);
    assert_eq!((neighbors[0].node_id, neighbors[0].port), (0xDEAD_BEEF_55AA_0011, 1));
    assert_eq!((neighbors[1].node_id, neighbors[1].port), (0, 2));
    let a = TableReported::of(7, &ports, &neighbors);
    let b = TableReported::of(7, &ports, &neighbors[..1]);
    assert!(a.same(&TableReported::of(7, &ports, &neighbors)) && !a.same(&b));
    assert!(!same_reports(&[a], &[b]));
}

fn table_seen() -> TableSeen {
    TableSeen {
        targets: vec![],
        copies: vec![],
        ours: None,
        reference_reported: vec![],
        node_reported: vec![],
        reference_timeouts: 0,
        node_timeouts: 0,
        expect_reported: false,
        expect_timeout: false,
        state: RequesterState { target_node_id: 0, armed: false, remaining_ms: None },
        remaining_ms: 5,
    }
}

#[test]
fn a_table_step_is_held_to_the_model() {
    let model = TableModel::default();
    assert_eq!(check_table(&model, &table_seen()), Ok(()));
    let report = || vec![TableReported::of(7, &[], &[])];
    let armed = RequesterState { target_node_id: 0, armed: true, remaining_ms: None };
    for (seen, expected) in [
        (
            TableSeen { node_reported: report(), ..table_seen() },
            TableDivergence::Reported,
        ),
        (TableSeen { node_timeouts: 1, ..table_seen() }, TableDivergence::Timeouts),
        (
            TableSeen {
                node_reported: report(),
                reference_reported: report(),
                ..table_seen()
            },
            TableDivergence::Report,
        ),
        (TableSeen { expect_timeout: true, ..table_seen() }, TableDivergence::Timeout),
        (TableSeen { state: armed, ..table_seen() }, TableDivergence::State),
    ] {
        assert_eq!(check_table(&model, &seen), Err(expected));
    }
    let asked = TableSeen { targets: vec![7, 7], ..table_seen() };
    assert!(matches!(check_table(&model, &asked), Err(TableDivergence::Requests(_))));
    let mut running = TableModel::default();
    running.record(1, 2, true);
    let state = RequesterState { target_node_id: 2, armed: true, remaining_ms: Some(5) };
    assert!(same_state(&running, 5, &state) && !same_state(&running, 6, &state));
}

#[test]
fn a_name_is_found_by_any_prefix_of_it() {
    let mut model = Model::default();
    assert!(!model.find(name(6), ResourceType::Publisher), "nothing to find it on");
    assert!(model.add(name(0), ResourceType::Publisher));
    assert!(model.find(name(4), ResourceType::Publisher), "spotter, of spotter/time");
    assert!(model.find(name(6), ResourceType::Publisher), "and the empty name");
    assert!(!model.find(name(0), ResourceType::Subscriber));
    assert!(!model.add(name(4), ResourceType::Publisher), "found, so not added");
    assert!(model.add(name(1), ResourceType::Publisher));
    assert_eq!(model.list(ResourceType::Publisher).len(), 2);
    assert!(model.names_are_long_enough());
    assert_eq!(resource_kind(true), ResourceType::Subscriber);
}

#[test]
fn a_short_name_would_be_read_past() {
    let model = Model::new(vec![b"spotter".to_vec()], vec![]);
    assert!(model.over_reads(name(0), ResourceType::Publisher));
    assert!(!model.over_reads(name(4), ResourceType::Publisher));
    assert!(!model.names_are_long_enough());
    assert!(!model.step_is_defined(&Step::Find { name: 0, subscriber: false }));
    assert!(model.step_is_defined(&Step::Find { name: 4, subscriber: false }));
    let empty = Model::default();
    assert!(!empty.step_is_defined(&Step::Add { name: 4, subscriber: false }));
    assert!(empty.step_is_defined(&Step::Add { name: 0, subscriber: false }));
}

#[test]
fn a_resource_reply_answers_by_the_low_half_of_its_sender() {
    let mut model = Model::default();
    model.request_recorded(0xDEAD_BEEF_55AA_0011, true);
    model.request_recorded(9, false);
    assert!(!model.reply_accepted(9, 8), "it claims to be somebody else");
    assert!(model.reply_accepted(0x55AA_0011, 0x55AA_0011));
    assert!(!model.reply_accepted(9, 9), "accepted, but not to be reported");
    assert_eq!(model.oldest(), None);
    model.request_recorded(3, true);
    model.request_recorded(4, true);
    assert_eq!(drain_requests(&mut model), [3, 4]);
    for id in [1, 2, 3] {
        model.request_recorded(id, true);
    }
    assert!(model.reply_accepted(2, 2) && model.reply_accepted(3, 3));
    assert!(model.request_add_is_undefined());
    assert!(model.declines(&Step::Request { node: 0, report: true }));
    assert!(!model.declines(&Step::Find { name: 0, subscriber: true }));
}

#[test]
fn a_reply_has_one_of_five_shapes() {
    let report = expected_report(7, 3);
    assert_eq!(report.node_id, 7);
    assert_eq!(report.publishers, [name(0).to_vec(), name(1).to_vec()]);
    assert_eq!(report.subscribers, [name(2).to_vec()]);
    assert!(expected_report(7, 0).publishers.is_empty());
    assert!(report.same(&expected_report(7, 3)) && !report.same(&expected_report(7, 4)));
}

#[test]
fn the_reference_is_known_by_its_source_address() {
    let mut frame = vec![0u8; 60];
    assert!(!is_ours(&frame));
    frame[30..38].copy_from_slice(&NODE_ID.to_be_bytes());
    assert!(is_ours(&frame));
    assert!(!is_ours(&frame[..37]));
    let frames =
        [(1u8, frame.clone()), (2, frame.clone()), (1, vec![0; 60]), (1, frame.clone())];
    let types = [
        Some(MessageType::ResourceTableRequest),
        Some(MessageType::Heartbeat),
        Some(MessageType::ResourceTableReply),
        None,
    ];
    assert_eq!(built_by_the_oracle(&frames, &types), vec![(1, frame)]);
}

#[test]
fn resource_steps_are_held_to_the_model() {
    assert_eq!(check_add(true, true, true), Ok(()));
    assert_eq!(check_add(true, false, true), Err(ResourceDivergence::ReferenceAdd));
    assert_eq!(check_add(true, true, false), Err(ResourceDivergence::NodeAdd));
    assert_eq!(check_find(true, true, true), Ok(()));
    assert_eq!(check_find(true, true, false), Err(ResourceDivergence::Find));
    assert_eq!(check_find(false, true, true), Err(ResourceDivergence::Find));
    let copies = [captured(1, &[1]), captured(2, &[1])];
    let other = [captured(1, &[1]), captured(2, &[2])];
    assert_eq!(check_built(&copies, Some(&copies)), Ok(()));
    assert_eq!(check_built(&[], None), Ok(()));
    assert_eq!(
        check_built(&copies, None),
        Err(ResourceDivergence::Built { reference: 2 })
    );
    assert!(matches!(
        check_built(&copies, Some(&other)),
        Err(ResourceDivergence::Frames(_))
    ));
    let report = || vec![expected_report(7, 1)];
    assert_eq!(check_reported(&report(), &report(), &Some(expected_report(7, 1))), Ok(()));
    assert_eq!(
        check_reported(&report(), &[], &None),
        Err(ResourceDivergence::Reported)
    );
    assert_eq!(
        check_reported(&report(), &report(), &None),
        Err(ResourceDivergence::Report)
    );
    let wrong: Option<Reported> = Some(expected_report(7, 2));
    assert_eq!(
        check_reported(&report(), &report(), &wrong),
        Err(ResourceDivergence::Report)
    );
}

fn lists() -> ListsSeen {
    ListsSeen {
        resources: 1,
        resource_capacity: 2,
        requests: 0,
        request_capacity: 1,
        reference_publishers: 1,
        reference_subscribers: 0,
        node_publisher_count: 1,
        node_subscriber_count: 0,
        node_publishers: vec![name(0).to_vec()],
        node_subscribers: vec![],
        reference_body: vec![1],
        node_body: vec![1],
        expected_body: vec![1],
    }
}

#[test]
fn both_lists_are_what_the_model_says() {
    let model = Model::new(vec![name(0).to_vec()], vec![]);
    assert_eq!(assert_lists(&model, &lists()), Ok(()));
    let publisher = ResourceType::Publisher;
    let subscriber = ResourceType::Subscriber;
    for (seen, expected) in [
        (ListsSeen { resources: 2, ..lists() }, ResourceDivergence::ResourcesFull),
        (ListsSeen { requests: 1, ..lists() }, ResourceDivergence::RequestsFull),
        (
            ListsSeen { reference_publishers: 0, ..lists() },
            ResourceDivergence::Count { kind: publisher },
        ),
        (
            ListsSeen { node_publisher_count: 2, ..lists() },
            ResourceDivergence::NodeCount { kind: publisher },
        ),
        (
            ListsSeen { node_subscriber_count: 1, ..lists() },
            ResourceDivergence::NodeCount { kind: subscriber },
        ),
        (
            ListsSeen { node_publishers: vec![], ..lists() },
            ResourceDivergence::List { kind: publisher },
        ),
        (
            ListsSeen { reference_subscribers: 1, ..lists() },
            ResourceDivergence::Count { kind: subscriber },
        ),
        (
            ListsSeen { node_subscribers: vec![vec![]], ..lists() },
            ResourceDivergence::List { kind: subscriber },
        ),
        (ListsSeen { reference_body: vec![2], ..lists() }, ResourceDivergence::Body),
        (ListsSeen { expected_body: vec![2], ..lists() }, ResourceDivergence::BodyExpected),
    ] {
        assert_eq!(assert_lists(&model, &seen), Err(expected));
    }
}

fn time_input(message: u8, target: u8) -> TimeInput {
    let mut seed = vec![message, target, 0, 1, 0];
    seed.extend(100u64.to_le_bytes());
    seed.extend(200u64.to_le_bytes());
    TimeInput::from_seed(&seed).expect("no trailing bytes")
}

#[test]
fn a_time_message_says_who_is_asked() {
    let request = time_input(0, 1);
    assert_eq!(request.message, TimeMessage::Request);
    assert!(request.expects_response());
    assert!(!time_input(0, 0).expects_response(), "nobody answers for everyone");
    assert!(time_input(2, 0).expects_response(), "but everyone answers being set");
    assert!(!time_input(1, 1).expects_response());
    assert_eq!(TimeTarget::Everyone.node_id(), 0);
    assert_eq!(request.header().target_node_id, NODE_ID);
    assert_eq!(request.header().source_node_id, 0x55AA_0011);
    let encoded = vec![7u8; TimeMessage::Request.body_len()];
    let unsealed = build_frame(&request, &encoded, &[1; 16], 0xBC);
    assert_eq!(unsealed.message_type, MessageType::SystemTimeRequest);
    assert_eq!(unsealed.body, encoded);
    assert_eq!(unsealed.frame.len(), 54 + 13 + encoded.len());

    let mut wild = time_input(2, 1);
    wild.utc_time_us = u64::MAX;
    wild.trailing = vec![9; 70];
    let encoded = vec![7u8; TimeMessage::Assign.body_len()];
    let unsealed = build_frame(&wild, &encoded, &[1; 16], 0xBC);
    assert_eq!(unsealed.body, [encoded, vec![9; 64]].concat(), "no more than the domain holds");
    assert_eq!(unsealed.frame.len(), 54 + 13 + unsealed.body.len());
    assert_eq!(wild.carried_utc_us(), u64::MAX % (0x1_0000_0000 * 1_000_000));
}

#[test]
fn a_stamped_frame_is_read_without_its_checksum() {
    let mut frame = vec![0u8; 54 + 20];
    frame[19] = 20;
    frame[54] = 0xAA;
    assert!(matches!(read_back(&frame, Verdict::Accepted), Ok(ReadBack::Received)));
    assert!(matches!(read_back(&frame, Verdict::BadChecksum), Err(Verdict::BadChecksum)));
    frame[24] = 0x01;
    match read_back(&frame, Verdict::BadChecksum) {
        Ok(ReadBack::Unverified(bytes)) => assert_eq!(bytes, &frame[54..]),
        _ => panic!("an egress stamp spoils the checksum"),
    }
    assert!(matches!(read_back(&frame, Verdict::Refused), Err(Verdict::Refused)));
}

fn sighting(utc_time_us: u64) -> Sighting {
    Sighting {
        message_type: MessageType::SystemTimeResponse,
        response: Some((
            SystemTimeHeader { target_node_id: 0x55AA_0011, source_node_id: NODE_ID },
            utc_time_us,
        )),
        encodes_back: true,
    }
}

fn time_seen(sightings: Vec<Sighting>) -> TimeSeen {
    TimeSeen {
        reference_before: 100,
        node_before: 100,
        reference: vec![],
        node: vec![],
        reference_after: 100,
        node_after: 100,
        sightings,
    }
}

#[test]
fn a_time_message_is_answered_with_the_right_time() {
    let input = time_input(0, 1);
    let answered = vec![sighting(100), sighting(100)];
    assert_eq!(check_time(&input, &time_seen(answered)), Ok(()));
    let set = time_input(2, 1);
    let seen = time_seen(vec![sighting(200), sighting(200)]);
    assert_eq!(check_time(&set, &seen), Ok(()), "a set is answered with what it set");
    assert_eq!(
        check_time(&input, &time_seen(vec![sighting(100)])),
        Err(TimeDivergence::Responses { count: 1 })
    );
    assert_eq!(
        check_time(&input, &time_seen(vec![sighting(100), sighting(101)])),
        Err(TimeDivergence::Response { index: 1 })
    );
    let garbled = Sighting { response: None, ..sighting(100) };
    assert_eq!(
        check_time(&input, &time_seen(vec![garbled])),
        Err(TimeDivergence::Garbled { index: 0 })
    );
    let seen = TimeSeen { node_before: 1, ..time_seen(vec![]) };
    assert_eq!(check_time(&input, &seen), Err(TimeDivergence::ClocksBefore));
    let seen = TimeSeen { node_after: 1, ..time_seen(vec![]) };
    assert_eq!(check_time(&input, &seen), Err(TimeDivergence::ClocksAfter));
    let seen = TimeSeen { node: vec![captured(1, &[1])], ..time_seen(vec![]) };
    assert!(matches!(check_time(&input, &seen), Err(TimeDivergence::Frames(_))));
}

#[test]
fn the_stack_under_comparison_is_set_up_the_same_way_everywhere() {
    let node = node::<64>();
    assert_eq!(node.identity().node_id(), NODE_ID);
    assert_eq!(node.port_count(), 2);
    assert_eq!(node.device_info_reply().device_name, b"stack-oracle");
    assert_eq!(node.device_info_reply().version_string, b"0.0.0-diff");
    let mut phy = CapturePhy::default();
    phy.send(&[1], Egress::AllPorts);
    phy.send(&[2], Egress::Port(2));
    assert_eq!(phy.sent, vec![(0, vec![1]), (2, vec![2])]);
    assert_eq!(phy.receive(), Err(Unreachable));
    assert_eq!(phy.port_count(), 2);
    assert!(phy.link_up(1) && phy.link_up(2) && !phy.link_up(3));
    assert!(is_quiet(1, 2, 5, 5));
    assert!(!is_quiet(0, 2, 5, 5) && !is_quiet(1, 2, 5, 6));
}

#[test]
fn a_mask_holds_sixteen_ports() {
    assert_eq!((port_mask(1), port_mask(16), port_mask(0), port_mask(17)), (1, 0x8000, 0, 0));
    assert_eq!(first_ports(2), 0b11);
    let mask = with_link(with_link(0, 3, true), 1, true);
    assert_eq!(mask, 0b101);
    assert!(is_in_mask(mask, 3) && !is_in_mask(mask, 2) && !is_in_mask(mask, 0));
    assert_eq!(with_link(mask, 3, false), 1);
    assert_eq!(with_link(mask, 17, true), mask);
}

#[test]
fn only_a_tracked_send_carries_a_callback() {
    let request = PacketCfg { sequenced_reply: false, sequenced_request: true };
    let reply = PacketCfg { sequenced_reply: true, sequenced_request: false };
    let both = PacketCfg { sequenced_reply: true, sequenced_request: true };
    let mut outstanding = Outstanding::new();
    let mut resume = Resume::new();
    assert_eq!(outstanding.callback_slot(Some(request), true), Some(0));
    assert_eq!(outstanding.callback_slot(Some(request), false), None);
    assert_eq!(outstanding.callback_slot(Some(reply), true), None);
    assert_eq!(outstanding.callback_slot(Some(both), true), None);
    assert_eq!(outstanding.callback_slot(None, true), None);
    assert_eq!(outstanding.on_sent(&mut resume, request, 0, true, false), Ok(()));
    assert_eq!(outstanding.callback_slot(Some(request), true), Some(1));
}

fn sent(reference: ReferenceSent, node: NodeSent, node_frame: &[u8]) -> SentSeen {
    SentSeen { reference, node, reference_frame: vec![1, 2, 3], node_frame: node_frame.to_vec() }
}

#[test]
fn a_send_has_to_be_the_same_on_both_sides() {
    let mut resume = Resume { sequence_count: 7, next_sweep_ms: 0 };
    let mut outstanding = Outstanding::new();
    let numbered = |seq_num: u32, pending: bool| NodeSent::Sent { seq_num, pending };
    let frame: &[u8] = &[1, 2, 3];

    let seen = sent(ReferenceSent::Sent, numbered(7, true), frame);
    assert_eq!(outstanding.check_sent(&mut resume, Some(sequenced()), true, &seen), Ok(()));
    assert_eq!(resume.sequence_count, 8);
    assert!(!outstanding.is_empty());

    // The request is outstanding on both sides although the bytes differ.
    let seen = sent(ReferenceSent::Sent, numbered(8, true), &[1, 9, 3]);
    assert_eq!(
        outstanding.check_sent(&mut resume, Some(sequenced()), true, &seen),
        Err(SentDivergence::Frame(1))
    );
    assert_eq!(resume.sequence_count, 9);

    let refused = [
        (ReferenceSent::UnknownType, numbered(9, true)),
        (ReferenceSent::Failed, numbered(9, true)),
        (ReferenceSent::Sent, NodeSent::UnknownType),
        (ReferenceSent::Failed, NodeSent::Failed),
    ];
    for (reference, node) in refused {
        let seen = sent(reference, node, frame);
        assert_eq!(
            outstanding.check_sent(&mut resume, Some(sequenced()), true, &seen),
            Err(SentDivergence::Refused)
        );
    }
    let seen = sent(ReferenceSent::Sent, numbered(9, false), frame);
    assert_eq!(
        outstanding.check_sent(&mut resume, Some(sequenced()), true, &seen),
        Err(SentDivergence::Number(SendDivergence::Tracking { node: false }))
    );
    let seen = sent(ReferenceSent::Sent, numbered(4, true), frame);
    assert_eq!(
        outstanding.check_sent(&mut resume, Some(sequenced()), true, &seen),
        Err(SentDivergence::Number(SendDivergence::Sequence { node: 4, reference: 9 }))
    );
    let seen = sent(ReferenceSent::UnknownType, NodeSent::UnknownType, frame);
    assert_eq!(outstanding.check_sent(&mut resume, None, true, &seen), Ok(()));
    assert_eq!(resume.sequence_count, 9);
}

#[test]
fn a_script_leaves_nothing_behind() {
    let nothing = Leftovers { pending: 0, stragglers: 0, frames: 0 };
    let mut outstanding = Outstanding::new();
    assert_eq!(check_drained(&outstanding, nothing), Ok(()));
    assert_eq!(
        check_drained(&outstanding, Leftovers { pending: 1, ..nothing }),
        Err(DrainDivergence::Pending)
    );
    assert_eq!(
        check_drained(&outstanding, Leftovers { stragglers: 1, frames: 1, ..nothing }),
        Err(DrainDivergence::Stragglers)
    );
    assert_eq!(
        check_drained(&outstanding, Leftovers { frames: 2, ..nothing }),
        Err(DrainDivergence::Frames)
    );
    let mut resume = Resume { sequence_count: 0, next_sweep_ms: 0 };
    assert_eq!(outstanding.on_sent(&mut resume, sequenced(), 0, true, true), Ok(()));
    assert_eq!(
        check_drained(&outstanding, Leftovers { stragglers: 1, ..nothing }),
        Err(DrainDivergence::Unaccounted)
    );
}
