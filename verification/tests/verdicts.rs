//! When two sides agree, and what is said when they do not.

use bm_stack::diff::cbor::{
    accessors, check_copy, check_decode, check_encode, check_length, is_int64_negation_overflow,
    skipped, CborError, Copied, DecodeDivergence, EncodeDivergence, EncodeStep, LengthRead, Op,
    Parsed, Planned, Predicates, ReferenceCopy, MAX_SCRIPT_DEPTH,
};
use bm_stack::diff::checksum::{
    check as check_checksums, check_addr_derivation, check_checksum, ChecksumDivergence,
    ChecksumSeen,
};
use bm_stack::diff::compare::{
    frames_of, requests_of, round_trips, same_frames, same_requests, Captured, FrameDivergence,
    RequestDivergence, RequestError,
};
use bm_stack::diff::configuration::{
    cap_key_count, compare_state, corrupt, fix_crc, is_int64_min_minus_one, push_head, step,
    CopyOutcome, Observed, PartitionState, StateDivergence, NUM_KEYS_OFFSET,
};
use bm_stack::diff::crc::{check as check_crcs, CrcDivergence, CrcSeen};
use bm_stack::diff::domain::Domain;
use bm_stack::diff::forward::{
    build_frame as build_forward, check as check_forward, check_ll_forward, check_relay,
    Destination, ForwardDivergence, ForwardInput, ForwardSeen, Message, LINK_LOCAL_OTHER,
};
use bm_stack::diff::l2_egress::{
    build_frame as build_egress, check as check_egress, port_transmit, request_port,
    seal_datagram, Built, L2EgressInput,
};
use bm_stack::diff::l2_policy::{
    check as check_policy, PolicyDivergence, PolicySeen, Routed, Script,
};
use bm_stack::diff::packet::{
    check as check_packet, check_accept, check_serialize, Acceptance, BcmpInput,
    PacketDivergence, Processed, Verdict, REGISTERED,
};
use bm_stack::diff::replay::{Target, STACK_TARGETS, TARGETS};
use bm_stack::diff::util::{
    check_addr, check_date_time, AddrDivergence, AddrSeen, DateTimeDivergence,
};
use bm_stack::frame::{GLOBAL_MULTICAST, LINK_LOCAL_MULTICAST};
use bm_stack::message::MessageType;
use bm_stack::node::{Transfer, TxKind};
use bm_stack::port::{Egress, UtcDateTime};

fn captured(port: u8, bytes: &[u8]) -> Captured {
    (port, bytes.to_vec())
}

#[test]
fn frames_are_compared_in_number_then_port_then_bytes() {
    let a = [captured(1, &[1, 2, 3]), captured(2, &[4])];
    assert_eq!(same_frames(&a, &a), Ok(()));
    assert_eq!(
        same_frames(&a, &a[..1]),
        Err(FrameDivergence::Count { reference: 2, node: 1 })
    );
    let moved = [captured(1, &[1, 2, 3]), captured(1, &[9])];
    assert_eq!(
        same_frames(&a, &moved),
        Err(FrameDivergence::Port { index: 1, reference: 2, node: 1 })
    );
    let changed = [captured(1, &[1, 9, 3]), captured(2, &[4])];
    assert_eq!(
        same_frames(&a, &changed),
        Err(FrameDivergence::Byte { index: 0, port: 1, at: 1 })
    );
    let longer = [captured(1, &[1, 2, 3]), captured(2, &[4, 5])];
    assert_eq!(
        same_frames(&a, &longer),
        Err(FrameDivergence::Byte { index: 1, port: 2, at: 1 })
    );
}

#[test]
fn a_request_is_one_copy_per_port() {
    assert_eq!(requests_of(&[7, 7, 8, 8], 2), Ok(vec![7, 8]));
    assert_eq!(requests_of(&[], 2), Ok(vec![]));
    assert_eq!(requests_of(&[7, 7, 8], 2), Err(RequestError::Incomplete { copies: 3 }));
    assert_eq!(requests_of(&[7, 7, 8, 9], 2), Err(RequestError::Torn { request: 1 }));
}

#[test]
fn a_step_sends_at_most_one_request() {
    let copies = [captured(1, &[1]), captured(2, &[1])];
    let other = [captured(1, &[2]), captured(2, &[1])];
    assert_eq!(same_requests(&[5, 5], &copies, Some(&copies), 2), Ok(Some(5)));
    assert_eq!(same_requests(&[], &[], None, 2), Ok(None));
    assert_eq!(
        same_requests(&[5], &copies, None, 2),
        Err(RequestDivergence::Copies(RequestError::Incomplete { copies: 1 }))
    );
    assert_eq!(
        same_requests(&[5, 5], &copies, None, 2),
        Err(RequestDivergence::Unasked { target: 5 })
    );
    assert_eq!(
        same_requests(&[5, 5], &copies, Some(&other), 2),
        Err(RequestDivergence::Frames(FrameDivergence::Byte { index: 0, port: 1, at: 0 }))
    );
    assert_eq!(
        same_requests(&[], &[], Some(&copies), 2),
        Err(RequestDivergence::Count { reference: 0 })
    );
    assert_eq!(
        same_requests(&[5, 5, 6, 6], &copies, Some(&copies), 2),
        Err(RequestDivergence::Count { reference: 2 })
    );
}

#[test]
fn messages_are_picked_out_by_type() {
    let messages = [
        (MessageType::Ack, vec![1]),
        (MessageType::Heartbeat, vec![2]),
        (MessageType::Ack, vec![3]),
    ];
    assert_eq!(frames_of(&messages, MessageType::Ack), vec![vec![1], vec![3]]);
    assert!(frames_of(&messages, MessageType::EchoReply).is_empty());
    assert!(round_trips(&[1, 2, 3], &[1, 2]));
    assert!(!round_trips(&[1, 2, 3], &[1, 3]));
    assert!(!round_trips(&[1], &[1, 2]));
}

fn addr() -> AddrSeen {
    AddrSeen {
        global_multicast: true,
        link_local_multicast: false,
        neighbor_multicast: false,
        node_id: 7,
        head16: 1,
        head32: 2,
    }
}

#[test]
fn every_reading_of_an_address_is_compared() {
    let a = addr();
    assert_eq!(check_addr(&a, &a, true), Ok(()));
    assert_eq!(check_addr(&a, &a, false), Err(AddrDivergence::Endianness));
    for (other, expected) in [
        (AddrSeen { global_multicast: false, ..a }, AddrDivergence::Global),
        (AddrSeen { link_local_multicast: true, ..a }, AddrDivergence::LinkLocal),
        (AddrSeen { neighbor_multicast: true, ..a }, AddrDivergence::Neighbor),
        (AddrSeen { node_id: 8, ..a }, AddrDivergence::NodeId),
        (AddrSeen { head16: 8, ..a }, AddrDivergence::Head16),
        (AddrSeen { head32: 8, ..a }, AddrDivergence::Head32),
    ] {
        assert_eq!(check_addr(&a, &other, true), Err(expected));
    }
}

#[test]
fn dates_are_compared_both_ways() {
    let date =
        UtcDateTime { year: 2026, month: 9, day: 21, hour: 0, min: 0, sec: 0, usec: 0 };
    assert_eq!(check_date_time((1, date), (1, date)), Ok(()));
    assert_eq!(check_date_time((1, date), (2, date)), Err(DateTimeDivergence::Seconds));
    let other = UtcDateTime { usec: 1, ..date };
    assert_eq!(check_date_time((1, date), (1, other)), Err(DateTimeDivergence::Calendar));
}

#[test]
fn a_checksum_taken_in_two_halves_is_the_whole_one() {
    let a = CrcSeen { crc16: 1, crc32: 2, updated: 3, chained: 2 };
    assert_eq!(check_crcs(&a, &a), Ok(()));
    for (other, expected) in [
        (CrcSeen { crc16: 9, ..a }, CrcDivergence::Crc16),
        (CrcSeen { crc32: 9, ..a }, CrcDivergence::Crc32),
        (CrcSeen { updated: 9, ..a }, CrcDivergence::Updated),
        (CrcSeen { chained: 9, ..a }, CrcDivergence::Chained),
    ] {
        assert_eq!(check_crcs(&a, &other), Err(expected));
    }
    let split = CrcSeen { chained: 9, ..a };
    assert_eq!(check_crcs(&split, &split), Err(CrcDivergence::Split));
}

fn derived() -> ChecksumSeen {
    ChecksumSeen {
        checksum: 1,
        address: [2; 16],
        mac: [3; 6],
        multicast_mac: [4; 6],
        multicast: true,
        written: b"FF02::1".to_vec(),
    }
}

#[test]
fn every_derived_address_is_compared() {
    let a = derived();
    assert_eq!(check_checksums(&a, &derived(), true), Ok(()));
    let other = ChecksumSeen { checksum: 9, ..derived() };
    assert_eq!(check_checksum(&a, &other), Err(ChecksumDivergence::Checksum));
    assert_eq!(check_checksums(&a, &other, true), Err(ChecksumDivergence::Checksum));
    assert_eq!(check_addr_derivation(&a, &other, true), Ok(()));
    for (other, expected) in [
        (ChecksumSeen { address: [9; 16], ..derived() }, ChecksumDivergence::Address),
        (ChecksumSeen { mac: [9; 6], ..derived() }, ChecksumDivergence::Mac),
        (ChecksumSeen { multicast_mac: [9; 6], ..derived() }, ChecksumDivergence::MulticastMac),
        (ChecksumSeen { multicast: false, ..derived() }, ChecksumDivergence::Multicast),
        (ChecksumSeen { written: vec![], ..derived() }, ChecksumDivergence::Written),
    ] {
        assert_eq!(check_checksums(&a, &other, true), Err(expected));
    }
    assert_eq!(check_checksums(&a, &derived(), false), Err(ChecksumDivergence::Overrun));
}

#[test]
fn every_seeds_directory_is_assigned_to_exactly_one_list() {
    for target in TARGETS {
        assert!(!STACK_TARGETS.contains(&target));
        assert!(!target.needs_own_process());
        assert_eq!(Target::named(target.name()), Some(target));
    }
    for target in STACK_TARGETS {
        assert!(!TARGETS.contains(&target));
        assert!(target.needs_own_process());
        assert_eq!(Target::named(target.name()), Some(target));
    }
    let names: Vec<&[u8]> = TARGETS.iter().map(|t| t.name()).collect();
    assert_eq!(
        names,
        [
            &b"addr"[..],
            b"bcmp",
            b"checksum",
            b"crc",
            b"date_time",
            b"l2_policy",
            b"strnlen",
            b"time_remaining",
            b"wildcard",
        ]
    );
    assert_eq!(Target::L2Egress.name(), b"l2_egress");
    assert_eq!(Target::named(b"elsewhere"), None);
}

#[test]
fn a_scripted_callback_is_counted() {
    let mut script = Script { egress: 6, submit: true, src_write: Some(9), ..Script::default() };
    assert_eq!(script.route(2), Routed { egress: 6, src_write: Some(9), submit: true });
    assert_eq!((script.calls, script.last_port), (1, 2));
}

fn policy() -> PolicySeen {
    PolicySeen {
        script: Script::default(),
        should_submit: true,
        egress_mask: 2,
        ingress_port_num: 1,
        frame: vec![1, 2],
        forwarded: vec![3],
    }
}

#[test]
fn a_policy_is_compared_down_to_the_bytes_it_leaves() {
    let a = policy();
    assert_eq!(check_policy(&a, &policy()), Ok(()));
    let calls = Script { calls: 1, ..Script::default() };
    let port = Script { last_port: 1, ..Script::default() };
    for (other, expected) in [
        (PolicySeen { script: calls, ..policy() }, PolicyDivergence::Calls),
        (PolicySeen { script: port, ..policy() }, PolicyDivergence::LastPort),
        (PolicySeen { should_submit: false, ..policy() }, PolicyDivergence::ShouldSubmit),
        (PolicySeen { egress_mask: 3, ..policy() }, PolicyDivergence::EgressMask),
        (PolicySeen { ingress_port_num: 2, ..policy() }, PolicyDivergence::IngressPort),
        (PolicySeen { frame: vec![1, 3], ..policy() }, PolicyDivergence::Frame { at: 1 }),
        (PolicySeen { forwarded: vec![], ..policy() }, PolicyDivergence::Forwarded { at: 0 }),
    ] {
        assert_eq!(check_policy(&a, &other), Err(expected));
    }
}

#[test]
fn a_sender_asks_for_a_port_in_a_byte_that_is_cleared() {
    let mut seed = vec![0u8, 0, 0];
    seed.extend([0u8; 12]);
    seed.extend([1, 2, 3]);
    let input = L2EgressInput::from_seed(&seed);
    let mut frame = match build_egress(&input, &[1; 16], &[2; 16], 0x11) {
        Built::Datagram(frame) => frame,
        Built::Message(_) => panic!("an even first byte is a datagram"),
    };
    assert_eq!(frame.len(), 54 + 8 + 3);
    seal_datagram(&mut frame, 0xABCD);
    assert_eq!(&frame[60..62], &[0xCD, 0xAB]);
    let before = frame.clone();
    request_port(&mut frame, 2);
    assert_eq!(frame[51], 2);
    request_port(&mut frame, before[51]);
    assert_eq!(frame, before, "a cleared request leaves no trace");

    let mut long = L2EgressInput::from_seed(&seed);
    long.body = vec![6; 300];
    assert_eq!(long.payload_len(), 8 + 256, "no more than the domain holds");
    match build_egress(&long, &[1; 16], &[2; 16], 0x11) {
        Built::Datagram(frame) => assert_eq!(frame.len(), 54 + 8 + 256),
        Built::Message(_) => panic!("an even first byte is a datagram"),
    }
}

#[test]
fn a_port_takes_a_stamped_copy_of_its_own() {
    assert_eq!(
        port_transmit(TxKind::LinkLocalMulticast, 0b11),
        vec![
            Transfer { egress: Egress::Port(1), stamped: true },
            Transfer { egress: Egress::Port(2), stamped: true },
        ]
    );
    assert_eq!(
        port_transmit(TxKind::GlobalMulticast, 0b11),
        vec![Transfer { egress: Egress::AllPorts, stamped: false }]
    );
    assert!(port_transmit(TxKind::Dropped, 0b11).is_empty());
    let a = [captured(0, &[1])];
    assert_eq!(check_egress(&a, &a), Ok(()));
    assert!(check_egress(&a, &[]).is_err());
}

#[test]
fn a_forwarded_message_has_somebody_else_as_its_target() {
    assert_eq!(Message::Unregistered.body_prefix(), None);
    assert!(Message::SystemTimeForAnother.is_forwarded());
    assert!(!Message::SystemTime.is_forwarded());
    assert_eq!(Message::DeviceInfoForUs.message_type(), MessageType::DeviceInfoRequest);
    assert_eq!(Destination::GlobalMulticast.addr(), GLOBAL_MULTICAST);
    assert_eq!(Destination::LinkLocalNeighbor.addr(), LINK_LOCAL_MULTICAST);
    assert_eq!(Destination::LinkLocalOther.addr(), LINK_LOCAL_OTHER);
    let input = ForwardInput::from_seed(&[5, 0, 1, 0x0A, 0, 0]);
    let unsealed = build_forward(&input, &[7; 16], 0xBC);
    assert_eq!(unsealed.frame.len(), 54 + 13 + input.body.len());
    assert_eq!(unsealed.frame[24], 0x0A);
    assert_eq!(unsealed.frame[26..28], [0, 0]);
    assert_eq!(unsealed.body, input.body);

    // An input out of the domain is built as the one it stands for.
    let mut wild = ForwardInput::from_seed(&[5, 0, 1, 0xFA, 0, 0]);
    wild.sender_egress_nibble = 0xFA;
    wild.body = vec![3; 300];
    let unsealed = build_forward(&wild, &[7; 16], 0xBC);
    assert_eq!(unsealed.frame[24], 0x0A);
    wild.clamp_to_domain();
    assert_eq!(unsealed.body, wild.body);
    assert!(unsealed.body.len() <= 256);
    assert_eq!(unsealed.frame, build_forward(&wild, &[7; 16], 0xBC).frame);
}

#[test]
fn a_relay_and_a_re_flood_are_both_compared() {
    let input = ForwardInput::from_seed(&[5, 0, 1, 0, 0, 0]);
    let a = [captured(2, &[1])];
    let b = [captured(2, &[2])];
    assert_eq!(check_relay(&input, &a, &a, true), Ok(()));
    assert_eq!(
        check_relay(&input, &a, &a, false),
        Err(ForwardDivergence::Decision { node: false })
    );
    assert!(matches!(check_relay(&input, &a, &b, true), Err(ForwardDivergence::Frames(_))));
    assert_eq!(check_ll_forward(&a, &a), Ok(()));
    assert_eq!(check_ll_forward(&[], &[]), Err(ForwardDivergence::Copies { reference: 0 }));
    let seen = ForwardSeen {
        reference: a.to_vec(),
        node: a.to_vec(),
        forwarded: true,
        reference_forward: a.to_vec(),
        node_forward: b.to_vec(),
    };
    assert_eq!(
        check_forward(&input, &seen),
        Err(ForwardDivergence::Frames(FrameDivergence::Byte { index: 0, port: 2, at: 0 }))
    );
}

fn processed() -> Processed {
    Processed {
        header: vec![1],
        payload: vec![2],
        src: [3; 16],
        dst: [4; 16],
        size: 5,
        ingress_port: 1,
    }
}

fn acceptance() -> Acceptance {
    Acceptance {
        reference_frame: vec![1, 2],
        node_frame: vec![1, 2],
        reference_rejected: false,
        node: Verdict::Accepted(processed()),
        processed: Some(processed()),
    }
}

#[test]
fn both_sides_must_make_the_same_of_a_packet() {
    assert_eq!(check_serialize(&[1, 2], &[1, 2]), Ok(()));
    assert_eq!(check_serialize(&[1, 2], &[1, 3]), Err(PacketDivergence::Serialized(1)));
    assert_eq!(check_accept(false, &acceptance()), Ok(()));
    let other = Processed { size: 6, ..processed() };
    assert!(!other.same(&processed()));
    for (seen, expected) in [
        (
            Acceptance { node_frame: vec![1], ..acceptance() },
            PacketDivergence::Rewritten(1),
        ),
        (
            Acceptance { reference_rejected: true, ..acceptance() },
            PacketDivergence::Checksum,
        ),
        (Acceptance { node: Verdict::Malformed, ..acceptance() }, PacketDivergence::Malformed),
        (Acceptance { processed: None, ..acceptance() }, PacketDivergence::NotDispatched),
        (Acceptance { processed: Some(other), ..acceptance() }, PacketDivergence::Fields),
    ] {
        assert_eq!(check_accept(false, &seen), Err(expected));
    }
    assert_eq!(
        check_accept(true, &Acceptance { processed: None, ..acceptance() }),
        Ok(()),
        "an unregistered type is validated and goes nowhere"
    );
    let rejected = Acceptance {
        reference_rejected: true,
        node: Verdict::BadChecksum,
        processed: None,
        ..acceptance()
    };
    assert_eq!(check_accept(false, &rejected), Ok(()));
    let input = BcmpInput::from_seed(&[]);
    assert_eq!(
        check_packet(&input, &[1], &[2], &acceptance()),
        Err(PacketDivergence::Serialized(0))
    );
    assert_eq!(check_packet(&input, &[1], &[1], &acceptance()), Ok(()));
}

#[test]
fn a_packet_is_put_on_the_wire_as_a_switch_would() {
    let mut seed = vec![0u8; 43];
    seed[32] = 1;
    seed[33] = 1;
    seed[38] = 0x21;
    seed[39] = 0xCD;
    seed[40] = 0xAB;
    seed[42] = 2;
    let input = BcmpInput::from_seed(&seed);
    assert_eq!(input.message_type(), REGISTERED[1]);
    assert_eq!(input.rx_message_type(), MessageType::Other(0x4242));
    let mut frame = input.blank_frame(0xBC);
    assert_eq!(frame.len(), 54 + 13 + 2, "two bytes of filler");
    let before = frame.clone();
    input.put_on_the_wire(&mut frame);
    assert_eq!(frame.len(), before.len());
    assert_eq!(frame[24], 0x10, "the low half of the stamp, in the high half of the byte");
    assert_eq!(&frame[26..28], &[0xAB, 0xCD]);
    assert_eq!(frame[28..56], before[28..56]);
}

#[test]
fn steps_the_c_cannot_be_asked_to_do() {
    let plan = skipped(&[Op::Close, Op::Uint(1)]);
    assert_eq!(
        plan,
        vec![Planned { skip: true, depth: 0 }, Planned { skip: false, depth: 0 }]
    );
    let mut ops: Vec<Op> = (0..MAX_SCRIPT_DEPTH + 2).map(|_| Op::OpenArray(1)).collect();
    ops.push(Op::Uint(9));
    let plan = skipped(&ops);
    for (index, planned) in plan.iter().enumerate() {
        let opens = index < MAX_SCRIPT_DEPTH + 2;
        assert_eq!(planned.skip, opens && index >= MAX_SCRIPT_DEPTH);
        assert_eq!(planned.depth, index.min(MAX_SCRIPT_DEPTH));
    }
}

fn encoded(buffer_size: usize, extra_needed: usize) -> Option<EncodeStep> {
    Some(EncodeStep { error: None, buffer_size, extra_needed })
}

#[test]
fn encoders_are_compared_call_by_call() {
    let steps = [encoded(1, 0), None, encoded(2, 3)];
    assert_eq!(check_encode(&steps, &steps, &[1], &[1]), Ok(()));
    let overflowed = [encoded(1, 0), None, encoded(7, 3)];
    assert_eq!(
        check_encode(&steps, &overflowed, &[1], &[1]),
        Ok(()),
        "once it has overflowed the cursor means nothing"
    );
    let failed = Some(EncodeStep {
        error: Some(CborError::OutOfMemory),
        buffer_size: 1,
        extra_needed: 0,
    });
    for (node, expected) in [
        (vec![encoded(1, 0)], EncodeDivergence::Length),
        (vec![encoded(1, 0), encoded(1, 0), encoded(2, 3)], EncodeDivergence::Skipped(1)),
        (vec![failed, None, encoded(2, 3)], EncodeDivergence::Error(0)),
        (vec![encoded(1, 0), None, encoded(2, 4)], EncodeDivergence::Shortfall(2)),
        (vec![encoded(2, 0), None, encoded(2, 3)], EncodeDivergence::Cursor(0)),
    ] {
        assert_eq!(check_encode(&steps, &node, &[1], &[1]), Err(expected));
    }
    assert_eq!(
        check_encode(&steps, &steps, &[1, 2], &[1, 3]),
        Err(EncodeDivergence::Buffer(1))
    );
}

fn predicates() -> Predicates {
    Predicates {
        valid: true,
        ty: 0,
        integer: true,
        unsigned_integer: false,
        negative_integer: true,
        byte_string: false,
        text_string: false,
        array: false,
        map: false,
        float: false,
        length_known: false,
    }
}

#[test]
fn the_one_integer_that_cannot_be_read_is_left_alone() {
    let overflow = [0x3B, 0x80, 0, 0, 0, 0, 0, 0, 0];
    assert!(is_int64_negation_overflow(&overflow));
    assert!(is_int64_negation_overflow(&[0x3B, 0x80, 0, 0, 0, 0, 0, 0, 0, 5]));
    assert!(!is_int64_negation_overflow(&overflow[..8]));
    assert!(!is_int64_negation_overflow(&[0x3B, 0x7F, 0xFF, 0, 0, 0, 0, 0, 0]));
    assert!(!is_int64_negation_overflow(&[0x3B, 0x80, 0, 0, 0, 0, 0, 0, 1]));
    let unlocked = accessors(&predicates(), &[0x20]);
    assert!(unlocked.int64 && !unlocked.uint64 && !unlocked.string);
    assert!(!accessors(&predicates(), &overflow).int64);
    assert!(is_int64_min_minus_one(Some((1, 0x8000_0000_0000_0000))));
    assert!(!is_int64_min_minus_one(Some((1, 0x7FFF_FFFF_FFFF_FFFF))));
    assert!(!is_int64_min_minus_one(Some((0, 0x8000_0000_0000_0000))));
    assert!(!is_int64_min_minus_one(None));
}

#[test]
fn parsers_are_compared_down_to_the_numbers() {
    let a = Parsed { error: None, value: predicates(), uint64: None, int64: Some(-1), float: None };
    assert_eq!(check_decode(&a, &a), Ok(()));
    for (node, expected) in [
        (Parsed { error: Some(CborError::UnexpectedEof), ..a }, DecodeDivergence::Error),
        (
            Parsed { value: Predicates { ty: 1, ..predicates() }, ..a },
            DecodeDivergence::Predicates,
        ),
        (Parsed { uint64: Some(1), ..a }, DecodeDivergence::Uint64),
        (Parsed { int64: None, ..a }, DecodeDivergence::Int64),
        (Parsed { float: Some(1), ..a }, DecodeDivergence::Float),
    ] {
        assert_eq!(check_decode(&a, &node), Err(expected));
    }
}

#[test]
fn a_length_counts_only_when_it_could_be_read() {
    assert_eq!(check_length(None, 3, LengthRead::Known(3)), Ok(()));
    assert_eq!(check_length(None, 4, LengthRead::Known(3)), Err(DecodeDivergence::Length));
    let eof = CborError::UnexpectedEof;
    assert_eq!(check_length(Some(eof), 99, LengthRead::Failed(eof)), Ok(()));
    assert_eq!(
        check_length(None, 0, LengthRead::Failed(eof)),
        Err(DecodeDivergence::Length)
    );
}

#[test]
fn a_copy_is_compared_with_the_bytes_it_left_alone() {
    let reference = ReferenceCopy { error: None, len: 2, buffer: vec![1, 2, 0xEE] };
    assert_eq!(check_copy(&reference, Copied::Fits(2), &[1, 2, 0xEE], 3), Ok(()));
    assert_eq!(
        check_copy(&reference, Copied::TooSmall(2), &[1, 2, 0xEE], 3),
        Err(DecodeDivergence::CopyError)
    );
    assert_eq!(
        check_copy(&reference, Copied::Fits(2), &[1, 2, 0], 3),
        Err(DecodeDivergence::CopyBuffer(2))
    );
    assert_eq!(
        check_copy(&reference, Copied::Fits(1), &[1, 2, 0xEE], 3),
        Err(DecodeDivergence::CopyLength)
    );
    let broken =
        ReferenceCopy { error: Some(CborError::IllegalType), len: 3, buffer: vec![0; 3] };
    assert_eq!(
        check_copy(&broken, Copied::Failed(CborError::IllegalType), &[0; 3], 3),
        Ok(())
    );
}

#[test]
fn a_head_is_as_short_as_its_number_allows() {
    for (arg, expected) in [
        (0u64, vec![0x40u8]),
        (23, vec![0x57]),
        (24, vec![0x58, 24]),
        (255, vec![0x58, 255]),
        (256, vec![0x59, 1, 0]),
        (0xFFFF, vec![0x59, 0xFF, 0xFF]),
        (0x1_0000, vec![0x5A, 0, 1, 0, 0]),
        (0x1_0000_0000, vec![0x5B, 0, 0, 0, 1, 0, 0, 0, 0]),
    ] {
        let mut out = Vec::new();
        push_head(&mut out, 0x40, arg);
        assert_eq!(out, expected, "{arg}");
    }
}

#[test]
fn an_image_is_changed_in_one_place() {
    let mut image: Vec<u8> = (0..20).collect();
    image[NUM_KEYS_OFFSET] = 60;
    cap_key_count(&mut image);
    assert_eq!(image[NUM_KEYS_OFFSET], 9);
    fix_crc(&mut image, 0x0403_0201);
    assert_eq!(&image[..5], &[1, 2, 3, 4, 4]);
    let before = image.clone();
    corrupt(&mut image, 21, 0xFF);
    let changed: Vec<usize> = (0..20).filter(|i| image[*i] != before[*i]).collect();
    assert_eq!(changed, [1], "an offset past the end wraps");
}

#[test]
fn what_a_get_copied_is_reported_with_its_size() {
    assert_eq!(CopyOutcome::Copied(3).report(10), (true, 3));
    assert_eq!(CopyOutcome::TooSmall(30).report(10), (false, 30));
    assert_eq!(CopyOutcome::Refused.report(10), (false, 10));
}

#[test]
fn observations_agree_only_when_they_are_the_same() {
    let all = [
        Observed::Flag(true),
        Observed::Flag(false),
        Observed::Uint(Some(1)),
        Observed::Uint(None),
        Observed::Int(Some(1)),
        Observed::Float(Some(1)),
        Observed::Size(Some(1)),
        Observed::Copy(true, 1, vec![1]),
        Observed::Copy(true, 1, vec![2]),
        Observed::Copy(false, 1, vec![1]),
        Observed::Nothing,
    ];
    for (i, a) in all.iter().enumerate() {
        for (j, b) in all.iter().enumerate() {
            assert_eq!(step(a, b), i == j);
        }
    }
}

fn state() -> PartitionState {
    PartitionState {
        reference_image: vec![0; 10],
        node_image: vec![0; 10],
        reference_uncommitted: false,
        node_uncommitted: false,
        node_keys: 0,
        reference_flash: vec![1],
        node_flash: vec![1],
    }
}

#[test]
fn a_partition_is_compared_in_ram_and_in_flash() {
    assert_eq!(compare_state(&state()), Ok(()));
    let mut image = vec![0; 10];
    image[3] = 1;
    for (other, expected) in [
        (PartitionState { node_image: image, ..state() }, StateDivergence::Image(3)),
        (PartitionState { node_uncommitted: true, ..state() }, StateDivergence::Uncommitted),
        (PartitionState { node_keys: 1, ..state() }, StateDivergence::Keys),
        (PartitionState { node_flash: vec![2], ..state() }, StateDivergence::Flash(0)),
    ] {
        assert_eq!(compare_state(&other), Err(expected));
    }
}
