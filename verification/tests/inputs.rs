//! What a seed file turns into, byte by byte.

use arbitrary::Unstructured;
use bm_stack::diff::cbor::{CborInput, Op as Call};
use bm_stack::diff::checksum::{ChecksumInput, GoldVector};
use bm_stack::diff::configuration::{cbor_value, partition, ConfigInput, KeyInput, Op, LONG_KEY};
use bm_stack::diff::crc::CrcInput;
use bm_stack::diff::domain::{fold_port, Domain};
use bm_stack::diff::forward::{Destination, ForwardInput, Message};
use bm_stack::diff::info::{InfoInput, Step as InfoStep};
use bm_stack::diff::l2_egress::{Destination as EgressDestination, L2EgressInput, Upper};
use bm_stack::diff::l2_policy::L2PolicyInput;
use bm_stack::diff::messages::{BcmpMessagesInput, Request};
use bm_stack::diff::neighbor::{NeighborInput, Step as NeighborStep};
use bm_stack::diff::neighbor_table::{NeighborTableInput, Step as TableStep};
use bm_stack::diff::packet::BcmpInput;
use bm_stack::diff::ping::{PingInput, Target};
use bm_stack::diff::registry::{RegistryInput, SeqChoice, Step as RegistryStep};
use bm_stack::diff::resource::{ResourceInput, Step as ResourceStep};
use bm_stack::diff::time::{Target as TimeTarget, TimeInput, TimeMessage};
use bm_stack::diff::util::{
    AddrInput, DateTimeInput, StrnlenInput, TimeRemainingInput, WildcardInput,
};
use bm_stack::fuzz::NotEnoughData;
use bm_stack::port::Partition;

#[test]
fn numbers_are_read_little_endian_and_padded_with_zeros() {
    let input = TimeRemainingInput::from_seed(&[1, 2, 3, 4, 5, 6, 7, 8, 9]);
    assert_eq!(input.start, 0x0403_0201);
    assert_eq!(input.current, 0x0807_0605);
    assert_eq!(input.timeout, 9);
    let nothing = TimeRemainingInput::from_seed(&[]);
    assert_eq!((nothing.start, nothing.current, nothing.timeout), (0, 0, 0));
}

#[test]
fn drawing_moves_the_cursor() {
    let mut u = Unstructured::new(&[1, 0, 0, 0, 2, 0, 0, 0, 3, 0, 0, 0, 4]);
    assert_eq!(TimeRemainingInput::arbitrary(&mut u).timeout, 3);
    assert_eq!(u.len(), 1);
    assert_eq!(TimeRemainingInput::arbitrary(&mut u).start, 4);
    assert!(u.is_empty());
}

#[test]
fn a_month_is_folded_into_the_calendar() {
    let seed = [0xEA, 0x07, 12, 31, 23, 59, 60, 1, 0, 0, 0, 0, 0, 0, 0xFF];
    let input = DateTimeInput::from_seed(&seed);
    assert_eq!((input.year, input.month, input.day), (2026, 1, 31));
    assert_eq!((input.hour, input.minute, input.second), (23, 59, 60));
    assert_eq!(input.utc_us, 0x0300_0000_0000_0001);
    for byte in 0..=255u8 {
        let month = DateTimeInput::from_seed(&[0, 0, byte]).month;
        assert_eq!(month, byte % 12 + 1);
    }
    assert_eq!(DateTimeInput::from_seed(&[0, 0]).month, 1, "the low end once bytes run out");
}

#[test]
fn a_vector_goes_on_while_the_flags_are_odd() {
    let input = WildcardInput::from_seed(&[1, b'a', 3, b'b', 0, 1, b'*', 2]);
    assert_eq!(input.s, b"ab");
    assert_eq!(input.pattern, b"*");
    assert_eq!(input.compared(), (&b"ab"[..], &b"*"[..]));
    let cut = WildcardInput::from_seed(&[1]);
    assert_eq!(cut.s, [0], "a flag without its byte still makes one");
    assert!(cut.pattern.is_empty());
}

#[test]
fn a_string_longer_than_can_be_told_is_cut() {
    let input = WildcardInput { s: vec![b'x'; 0x1_0000], pattern: vec![b'?'; 3] };
    let (s, pattern) = input.compared();
    assert_eq!(s.len(), 0xFFFF);
    assert_eq!(pattern.len(), 3);
}

#[test]
fn the_bound_of_a_string_never_leaves_its_buffer() {
    let input = StrnlenInput::from_seed(&[1, 7, 0, 0x02, 0x01]);
    assert_eq!(input.buf, [7]);
    assert_eq!(input.max_length, 0x0102);
    assert_eq!(input.bound(), 1);
    assert_eq!(StrnlenInput { buf: vec![1, 2, 3], max_length: 2 }.bound(), 2);
}

#[test]
fn an_address_is_drawn_whole() {
    let seed: Vec<u8> = (1..=20).collect();
    let mut u = Unstructured::new(&seed);
    assert_eq!(AddrInput::arbitrary(&mut u).addr[..], seed[..16]);
    assert_eq!(u.len(), 4);

    // From a seed, the last byte is drawn once more out of what is left.
    let input = AddrInput::from_seed(&seed);
    assert_eq!(input.addr[..15], seed[..15]);
    assert_eq!(input.addr[15], 17);
    assert_eq!(input.heads(), ([1, 2], [1, 2, 3, 4]));
    assert_eq!(AddrInput::arbitrary_take_rest(Unstructured::new(&seed)).addr, input.addr);
    assert_eq!(AddrInput::from_seed(&seed[..17]).addr, input.addr);
    assert_eq!(AddrInput::from_seed(&seed[..16]).addr[14..], [15, 0], "nothing is left");
    assert_eq!(AddrInput::from_seed(&[9]).addr[..2], [9, 0]);
}

#[test]
fn the_halves_of_a_crc_input_make_the_whole() {
    let input = CrcInput::from_seed(&[4, 3, 2, 1, 5, 0, 1, 0xAA, 1, 0xBB, 1, 0xCC, 0]);
    assert_eq!(input.seed, 0x0102_0304);
    assert_eq!(input.split, 5);
    assert_eq!(input.data, [0xAA, 0xBB, 0xCC]);
    assert_eq!(input.halves(), (&[0xAA][..], &[0xBB, 0xCC][..]), "5 % 4");
}

#[test]
fn a_checksum_input_is_drawn_field_by_field() {
    let mut seed = vec![0x11u8; 16];
    seed.extend([0x22u8; 16]);
    seed.extend([0xBC, 1, 0x33, 0]);
    seed.extend(0xFE80_0000u32.to_le_bytes());
    seed.extend(0x0102_0304_0506_0708u64.to_le_bytes());
    let input = ChecksumInput::from_seed(&seed);
    assert_eq!(input.src, [0x11; 16]);
    assert_eq!(input.dst, [0x22; 16]);
    assert_eq!(input.next_header, 0xBC);
    assert_eq!(input.data, [0x33]);
    assert_eq!(input.prefix, 0xFE80_0000);
    assert_eq!(input.node_id, 0x0102_0304_0506_0708);
}

#[test]
fn a_captured_packet_is_an_input_too() {
    let vector = GoldVector {
        name: "one",
        src: [1; 16],
        dst: [2; 16],
        data: &[3, 4],
        expected: 0x1234,
    };
    assert!(vector.agrees(0x1234, 0x1234));
    assert!(!vector.agrees(0x1234, 0x1235));
    assert!(!vector.agrees(0x1235, 0x1234));
    let input = vector.input(0xBC);
    assert_eq!((input.src, input.dst), ([1; 16], [2; 16]));
    assert_eq!(input.data, [3, 4]);
    assert_eq!((input.prefix, input.node_id), (0xFE80_0000, 0));
}

#[test]
fn a_seed_ends_in_the_body() {
    let mut seed = vec![0u8; 44];
    seed[32] = 26;
    seed[33] = 1;
    seed[34..38].copy_from_slice(&7u32.to_le_bytes());
    seed[38] = 0x21;
    seed[39..41].copy_from_slice(&[0xCD, 0xAB]);
    seed[41] = 1;
    seed[42] = 9;
    let input = BcmpInput::from_seed(&seed);
    assert_eq!(input.type_index, 1, "folded into the registered types");
    assert!(input.unregistered && input.corrupt_checksum);
    assert_eq!((input.seq_num, input.ingress_stamp), (7, 0x21));
    assert_eq!((input.legacy_ports, input.trailing), (0xABCD, 9));
    assert_eq!(input.body, [0], "one byte is left over");
    seed.extend([5u8; 600]);
    assert_eq!(BcmpInput::from_seed(&seed).body.len(), 512);
}

#[test]
fn a_length_is_read_off_the_end() {
    // Forty-three bytes of fields, then 4 bytes and a length: 6 % 5 == 1.
    let mut seed = vec![0u8; 43];
    seed.extend([0xA0, 0xA1, 0xA2, 0xA3, 6]);
    let mut u = Unstructured::new(&seed);
    assert_eq!(BcmpInput::arbitrary(&mut u).body, [0xA0]);
    assert_eq!(u.len(), 3, "the rest is still there");

    // 257 bytes left: two bytes come off, and only the first of them counts.
    let mut seed = vec![0u8; 43];
    seed.extend((0..255).map(|i| i as u8));
    seed.extend([3, 200]);
    let mut u = Unstructured::new(&seed);
    assert_eq!(BcmpInput::arbitrary(&mut u).body, [0, 1, 2]);
    assert_eq!(u.len(), 252);

    // 300 bytes left: two bytes come off, most significant first.
    let mut seed = vec![0u8; 43];
    seed.extend([7u8; 298]);
    seed.extend([1, 4]);
    let mut u = Unstructured::new(&seed);
    assert_eq!(BcmpInput::arbitrary(&mut u).body.len(), 260);
    assert_eq!(u.len(), 38);

    // 0x1_0002 bytes left: four bytes come off, of which two are read.
    let mut seed = vec![0u8; 43];
    seed.extend(vec![7u8; 0xFFFE]);
    seed.extend([0, 5, 9, 9]);
    let mut u = Unstructured::new(&seed);
    assert_eq!(BcmpInput::arbitrary(&mut u).body.len(), 5);
    assert_eq!(u.len(), 0xFFFE - 5);

    // A single byte is a length of nothing.
    let mut seed = vec![0u8; 43];
    seed.push(9);
    let mut u = Unstructured::new(&seed);
    assert!(BcmpInput::arbitrary(&mut u).body.is_empty());
    assert!(u.is_empty());
}

#[test]
fn a_policy_input_is_shaped_by_one_byte() {
    // No frame, shape 0: nothing is aimed anywhere.
    let raw = L2PolicyInput::from_seed(&[0, 0, 0x34, 0x12, 0x78, 0x56, 1, 2, 0, 1, 1, 0x5A]);
    assert!(raw.frame.is_empty());
    assert_eq!((raw.ingress_port_mask, raw.all_ports_mask), (0x1234, 0x5678));
    assert!(raw.with_callback && raw.cb_submit);
    assert_eq!((raw.cb_egress, raw.cb_src_write), (2, Some(0x5A)));
    // Any other shape pads the frame and makes it IPv6.
    let shaped = L2PolicyInput::from_seed(&[0, 1]);
    assert_eq!(shaped.frame.len(), 54);
    assert_eq!(shaped.frame[12..14], [0x86, 0xDD]);
    assert_eq!(shaped.cb_src_write, None);
    let script = raw.script();
    assert_eq!((script.egress, script.submit, script.calls), (2, true, 0));
}

#[test]
fn an_egress_input_keeps_to_its_domain() {
    let mut seed = vec![1u8, 6, 9];
    seed.extend(0xAABBu64.to_le_bytes());
    seed.extend([1, 2, 3, 4]);
    seed.extend([8u8; 300]);
    let input = L2EgressInput::from_seed(&seed);
    assert_eq!((input.upper, input.destination), (Upper::Bcmp, EgressDestination::LinkLocalOther));
    assert_eq!((input.requested_port, input.source_node_id), (9, 0xAABB));
    assert_eq!(input.udp_ports, (0x0201, 0x0403));
    assert_eq!(input.body.len(), 256);
    assert_eq!(input.payload_len(), 13 + 256);
    let udp = L2EgressInput::from_seed(&[0]);
    assert_eq!(udp.payload_len(), 8);
}

#[test]
fn a_forward_input_keeps_room_for_what_its_message_needs() {
    let input = ForwardInput::from_seed(&[5, 1, 3, 0xF7, 0xFF, 0xFF, 9, 9]);
    assert_eq!(input.message, Message::SystemTimeForAnother);
    assert_eq!(input.destination, Destination::LinkLocalNeighbor);
    assert_eq!(input.ingress_port, 1, "3 folded into two ports");
    assert_eq!(input.sender_egress_nibble, 7);
    assert!(input.reaches_bcmp());
    let prefix = input.message.body_prefix().expect("it has a target");
    assert_eq!(&input.body[..prefix.len()], &prefix[..]);
    assert_eq!(prefix[..8], 0x0BAD_F00Du64.to_le_bytes());
    let other = ForwardInput::from_seed(&[0, 0, 1, 0, 1, 0]);
    assert!(!other.reaches_bcmp(), "neither clear nor all ones");
}

#[test]
fn a_time_input_needs_its_trailing_bytes() {
    let mut seed = vec![2u8, 1, 3, 2, 1];
    seed.extend(5u64.to_le_bytes());
    seed.extend(6u64.to_le_bytes());
    assert!(matches!(TimeInput::from_seed(&seed), Err(NotEnoughData)));
    seed.extend([7, 8, 9, 10]);
    let input = TimeInput::from_seed(&seed).expect("three bytes are there");
    assert_eq!((input.message, input.target), (TimeMessage::Assign, TimeTarget::ThisNode));
    assert_eq!((input.ingress_port, input.global_multicast), (2, true));
    assert_eq!((input.clock_us, input.utc_time_us), (5, 6));
    assert_eq!(input.trailing, [7, 8, 9]);
    assert_eq!(input.decode_probe, [10]);
}

#[test]
fn a_ping_input_has_a_payload_and_a_probe() {
    // Target, port, scope, id, sequence, whether the payload is there.
    let input = PingInput::from_seed(&[2, 2, 0, 0x34, 0x12, 0x78, 0x56, 0, 1, 2, 3, 4, 2]);
    assert_eq!(input.target, Target::OtherNode);
    assert_eq!((input.request_id, input.request_seq), (0x1234, 0x5678));
    assert_eq!(input.payload, [1, 2]);
    assert_eq!(input.decode_probe, [3, 4]);
    assert!(!input.target.expects_reply());
}

#[test]
fn a_messages_input_is_drawn_too() {
    let input = BcmpMessagesInput::from_seed(&[1, 1, 4, 1, 0xAB, 0xCD]);
    assert_eq!(input.request, Request::DeviceInfo);
    assert_eq!(input.target, Target::ThisNode);
    assert_eq!((input.ingress_port, input.global_multicast), (2, true));
    assert_eq!(input.decode_probe, [0xAB, 0xCD]);
}

#[test]
fn steps_are_drawn_until_the_bytes_run_out() {
    // A heartbeat: an odd flag, node, port, eight bytes of uptime, four of lease.
    let mut seed = vec![1u8, 5, 3];
    seed.extend(7u64.to_le_bytes());
    seed.extend(10u32.to_le_bytes());
    seed.extend([0u8, 0xFF, 0xFF]);
    let input = NeighborInput::from_seed(&seed);
    assert_eq!(
        input.steps,
        vec![
            NeighborStep::Heartbeat { node: 1, port: 1, uptime_us: 7, lease_s: 10 },
            NeighborStep::Advance { ms: 0xFFFF % 60_001 },
        ]
    );
    assert!(NeighborInput::from_seed(&[]).steps.is_empty());
    assert_eq!(NeighborInput::from_seed(&[0u8; 1000]).steps.len(), 32);
}

#[test]
fn info_steps_are_chosen_by_a_range() {
    let input = InfoInput::from_seed(&[2, 7, 1, 3, 1, 0, 0, 0]);
    assert_eq!(
        input.steps,
        vec![InfoStep::Request { node: 3, report: true }, InfoStep::Advance { ms: 1 }]
    );
    let reply = InfoInput::from_seed(&[1, 5, 6, 2, 9, 0xEE]);
    assert_eq!(
        reply.steps,
        vec![InfoStep::Reply { from: 1, claims: 2, port: 2, strings: 4, revision: 0xEE }]
    );
}

#[test]
fn table_steps_are_chosen_by_a_range() {
    let input = NeighborTableInput::from_seed(&[0, 6, 0, 1, 1, 2, 1, 5, 4, 9]);
    assert_eq!(
        input.steps,
        vec![
            TableStep::Request { node: 2, report: false },
            TableStep::Reply {
                from: 1,
                claims: 2,
                port: 1,
                ports: 2,
                neighbors: 1,
                revision: 9,
            },
        ]
    );
}

#[test]
fn resource_steps_are_chosen_by_a_range() {
    let input = ResourceInput::from_seed(&[0, 8, 1, 1, 6, 0, 3, 5, 2, 4, 1, 2, 1, 7]);
    assert_eq!(
        input.steps,
        vec![
            ResourceStep::Add { name: 1, subscriber: true },
            ResourceStep::Find { name: 6, subscriber: false },
            ResourceStep::Incoming { target: 1, port: 2 },
            ResourceStep::Reply { from: 1, claims: 2, port: 1, shape: 2 },
        ]
    );
}

#[test]
fn registry_steps_are_chosen_by_a_byte() {
    let mut seed = vec![0u8, 3];
    seed.extend(9u32.to_le_bytes());
    seed.extend([1, 40]);
    seed.extend([1, 2, 0, 5, 7]);
    let input = RegistryInput::from_seed(&seed);
    assert_eq!(
        input.steps[0],
        RegistryStep::Send { type_index: 3, reply_seq_num: 9, with_callback: true, body_len: 7 }
    );
    assert!(matches!(
        input.steps[1],
        RegistryStep::Receive { type_index: 2, seq: SeqChoice::Raw(_), .. }
            | RegistryStep::Receive { type_index: 2, seq: SeqChoice::Outstanding(_), .. }
    ));
}

#[test]
fn a_script_of_encoder_calls_is_drawn() {
    // Buffer 5, copy 6, two calls: Int(-2) and Close; a payload of one byte.
    let mut seed = vec![5u8, 6, 2, 1];
    seed.extend((-2i64).to_le_bytes());
    seed.extend([7, 1, 0xF6]);
    let input = CborInput::from_seed(&seed);
    assert_eq!((input.buffer_len, input.copy_len), (5, 6));
    assert_eq!(input.ops.len(), 2);
    assert!(matches!(input.ops[0], Call::Int(-2)));
    assert!(matches!(input.ops[1], Call::Close));
    assert_eq!(input.payload, [0xF6]);
}

#[test]
fn the_system_partition_is_drawn_twice_as_often() {
    for (byte, expected) in [
        (0u8, Partition::User),
        (1, Partition::System),
        (2, Partition::System),
        (3, Partition::Hardware),
        (4, Partition::User),
    ] {
        assert_eq!(partition(&mut Unstructured::new(&[byte])), expected);
    }
}

#[test]
fn a_drawn_value_is_cbor() {
    let string = [1u8, 1, 3, b'a', b'b', b'c', 0];
    assert_eq!(cbor_value(&mut Unstructured::new(&string)), b"\x43abc");
    let text = [1u8, 0, 1, b'z', 2, 7, 8];
    assert_eq!(cbor_value(&mut Unstructured::new(&text)), b"\x61z\x07\x08");
    let scalar = [3u8, 0, 24, 0, 0, 0, 0, 0, 0, 0, 0];
    assert_eq!(cbor_value(&mut Unstructured::new(&scalar)), [0x18, 24]);
    let raw = [0u8, 2, 0xFE, 0xFD, 9];
    assert_eq!(cbor_value(&mut Unstructured::new(&raw)), [0xFE, 0xFD]);
    assert!(cbor_value(&mut Unstructured::new(&[])).is_empty());
}

#[test]
fn a_key_ends_where_the_reference_stops_reading() {
    let key = KeyInput { text: LONG_KEY.to_vec(), len: 40 };
    let bytes = key.c_bytes();
    assert!(bytes.len() >= 40);
    assert_eq!(bytes[..33], LONG_KEY);
    assert!(bytes[33..].iter().all(|b| *b == 0));
}

#[test]
fn an_empty_seed_is_still_an_input() {
    assert!(ConfigInput::from_seed(&[]).ops.len() <= 64);
    let ops = ConfigInput::from_seed(&[0xFF; 40]).ops;
    assert!(ops.iter().all(|op| !matches!(op, Op::GetUint(t) if t.key.len > 255)));
}

#[test]
fn a_port_that_exists_is_left_alone() {
    for port in 0..=255u8 {
        let folded = fold_port(port, 2);
        assert!((1..=2).contains(&folded));
        if (1..=2).contains(&port) {
            assert_eq!(folded, port);
        }
    }
    assert_eq!((fold_port(0, 2), fold_port(3, 2)), (2, 1));
}

#[test]
fn clamping_keeps_what_is_already_defined() {
    let mut input = PingInput::from_seed(&[0, 1, 1, 1, 0, 2, 0, 1, 5, 1]);
    let before = (input.ingress_port, input.payload.clone());
    input.clamp_to_domain();
    assert_eq!((input.ingress_port, input.payload.clone()), before);
    input.ingress_port = 9;
    input.payload = vec![1; 1000];
    input.clamp_to_domain();
    assert_eq!(input.ingress_port, 1);
    assert_eq!(input.payload.len(), 256);
}
