//! The clock, the configuration storage and the PHY's packet ids.

use bm_stack::adin2111::{
    has_port, ingress_port, packet_id, prepare_send, receive_len, PacketIds, PhyError,
};
use bm_stack::config::{
    after_write, config_init, loaded, read_partitions, save_config, Images, Saved, LOAD_ORDER,
};
use bm_stack::port::{
    ConfigStorage, Egress, NoRtc, Partition, RamConfigStorage, Rtc, RtcTimeAndDate, SoftRtc,
    UtcDateTime,
};

#[test]
fn a_reading_converts_to_the_microseconds_the_shim_would_report() {
    let reading = RtcTimeAndDate {
        year: 2026,
        month: 9,
        day: 21,
        hour: 0,
        minute: 0,
        second: 0,
        ms: 0,
    };
    assert_eq!(reading.to_utc_micros(1_789_948_800), 1_789_948_800_000_000);

    let with_ms = RtcTimeAndDate { ms: 250, ..reading };
    assert_eq!(with_ms.to_utc_micros(1_789_948_800), 1_789_948_800_250_000);
}

#[test]
fn a_set_truncates_below_the_millisecond() {
    // 1 789 948 800 250 999 microseconds after the epoch.
    let utc = UtcDateTime {
        year: 2026,
        month: 9,
        day: 21,
        hour: 0,
        min: 0,
        sec: 0,
        usec: 250_999,
    };
    let reading = RtcTimeAndDate::from_utc_micros(&utc);
    assert_eq!(reading.ms, 250, "999 microseconds are dropped");
    assert_eq!(
        reading.to_utc_micros(1_789_948_800),
        1_789_948_800_250_000,
        "and cannot be recovered"
    );
    assert_eq!(reading.year, 2026);
    assert_eq!((reading.month, reading.day), (9, 21));
}

#[test]
fn the_longest_reading_still_fits() {
    let reading = RtcTimeAndDate { ms: u16::MAX, ..RtcTimeAndDate::default() };
    assert_eq!(reading.to_utc_micros(u32::MAX), 4_294_967_295_000_000 + 65_535_000);
}

#[test]
fn a_node_without_a_clock_fails_both_ways() {
    let mut rtc = NoRtc;
    assert_eq!(rtc.get(), None);
    assert!(!rtc.set(&RtcTimeAndDate::default()));
}

#[test]
fn a_soft_clock_answers_only_once_it_has_been_set() {
    let noon = RtcTimeAndDate {
        year: 2026,
        month: 9,
        day: 21,
        hour: 12,
        minute: 0,
        second: 0,
        ms: 0,
    };

    let mut rtc = SoftRtc::new();
    assert_eq!(rtc.get(), None, "unset, exactly as the C shim comes up");
    assert!(rtc.set(&noon));
    assert_eq!(rtc.get(), Some(noon));

    let mut refuses = SoftRtc::read_only(noon);
    assert_eq!(refuses.get(), Some(noon));
    assert!(!refuses.set(&RtcTimeAndDate::default()));
    assert_eq!(refuses.get(), Some(noon), "and kept what it had");

    assert_eq!(SoftRtc::at(noon).reading(), Some(noon));
}

#[test]
fn storage_reads_back_what_was_written_where_it_was_written() {
    let mut storage = RamConfigStorage::new(8);
    assert_eq!(storage.bytes(Partition::System), &[0u8; 8]);
    assert!(storage.write(Partition::System, 2, &[1, 2, 3], 100));
    assert_eq!(storage.bytes(Partition::System), &[0, 0, 1, 2, 3, 0, 0, 0]);
    assert_eq!(storage.bytes(Partition::User), &[0u8; 8]);
    let mut buf = [9u8; 3];
    assert!(storage.read(Partition::System, 2, &mut buf, 100));
    assert_eq!(buf, [1, 2, 3]);
    assert!(!storage.write(Partition::System, 6, &[1, 2, 3], 100), "past the end");
    assert!(!storage.read(Partition::System, 6, &mut buf, 100));
    assert_eq!(buf, [1, 2, 3], "and nothing was touched");
    assert!(!storage.read(Partition::Hardware, u32::MAX, &mut buf, 100));
    storage.bytes_mut(Partition::Hardware)[7] = 5;
    assert_eq!(storage.bytes(Partition::Hardware)[7], 5);
}

const IMAGE_LEN: usize = 200;

fn images() -> Images {
    Images { user: vec![1; IMAGE_LEN], system: vec![2; IMAGE_LEN], hardware: vec![3; IMAGE_LEN] }
}

/// An image with its first byte set so that the whole of it sums to 0xA5.
fn seal(mut image: Vec<u8>) -> Vec<u8> {
    image[0] = image[1..].iter().fold(0xA5u8, |sum, byte| sum.wrapping_sub(*byte));
    image
}

fn verifies(image: &Vec<u8>) -> bool {
    image.iter().fold(0u8, |sum, byte| sum.wrapping_add(*byte)) == 0xA5
}

/// A saved partition comes back from storage; a corrupted one does not.
#[test]
fn a_saved_partition_survives_a_reload_and_a_corrupt_one_does_not() {
    let mut storage = RamConfigStorage::new(IMAGE_LEN);
    assert_eq!(config_init(&mut images(), &mut storage, 100, verifies), [false; 3]);

    let mut image = vec![0u8; IMAGE_LEN];
    image[100] = 42;
    let sealed = seal(image);
    let mut uncommitted = true;
    assert!(save_config(
        &sealed,
        &mut uncommitted,
        Partition::System,
        &mut storage,
        false,
        100
    ));
    assert!(!uncommitted);

    let mut fresh = images();
    assert_eq!(
        config_init(&mut fresh, &mut storage, 100, verifies),
        [false, true, false]
    );
    assert_eq!(fresh.system, sealed);
    assert_eq!(fresh.system[100], 42);
    assert_eq!(fresh.user, vec![0; IMAGE_LEN], "the others are read, and are blank");

    storage.bytes_mut(Partition::System)[100] ^= 1;
    assert_eq!(config_init(&mut images(), &mut storage, 100, verifies), [false; 3]);
}

#[test]
fn a_partition_is_loaded_if_it_was_read_and_verifies() {
    assert_eq!(loaded([true, true, false], [true, false, true]), [true, false, false]);
    assert_eq!(loaded([true; 3], [true; 3]), [true; 3]);
    assert_eq!(loaded([false; 3], [true; 3]), [false; 3]);

    // Storage too small for one partition: what could not be read keeps its
    // bytes, and is not loaded however well they verify.
    let mut storage = RamConfigStorage::new(4);
    let mut fresh = Images { user: vec![1; 4], system: vec![2; 4], hardware: vec![3; 5] };
    assert_eq!(read_partitions(&mut fresh, &mut storage, 100), [true, true, false]);
    assert_eq!(fresh.user, vec![0; 4]);
    assert_eq!(fresh.hardware, vec![3; 5]);
    assert_eq!(config_init(&mut fresh, &mut storage, 100, |_| true), [true, true, false]);
}

#[test]
fn a_clock_loses_only_what_is_below_the_millisecond() {
    // The last second that thirty-two bits reach, one microsecond short.
    let utc_us: u64 = 4_294_967_295_999_999;
    let utc = UtcDateTime {
        year: 2106,
        month: 2,
        day: 7,
        hour: 6,
        min: 28,
        sec: 15,
        usec: (utc_us % 1_000_000) as u32,
    };
    let kept = RtcTimeAndDate::from_utc_micros(&utc);
    let seconds = (utc_us / 1_000_000) as u32;
    assert_eq!(seconds, u32::MAX);
    assert_eq!(kept.to_utc_micros(seconds), utc_us - utc_us % 1000);
}

/// A storage that remembers what it was asked.
struct Recorder {
    accepts: bool,
    calls: Vec<String>,
}

impl ConfigStorage for Recorder {
    fn read(&mut self, partition: Partition, offset: u32, buf: &mut [u8], ms: u32) -> bool {
        self.calls.push(format!("read {partition:?} {offset} {} {ms}", buf.len()));
        self.accepts
    }

    fn write(&mut self, partition: Partition, offset: u32, buf: &[u8], ms: u32) -> bool {
        self.calls.push(format!("write {partition:?} {offset} {buf:?} {ms}"));
        self.accepts
    }

    fn reset(&mut self) {
        self.calls.push("reset".to_string());
    }
}

#[test]
fn partitions_are_loaded_in_order() {
    let mut storage = Recorder { accepts: false, calls: Vec::new() };
    assert_eq!(config_init(&mut images(), &mut storage, 7, |_| true), [false; 3]);
    assert_eq!(
        storage.calls,
        vec!["read User 0 200 7", "read System 0 200 7", "read Hardware 0 200 7"]
    );
    assert_eq!(LOAD_ORDER, [Partition::User, Partition::System, Partition::Hardware]);
}

#[test]
fn a_restart_follows_a_save_that_succeeded_and_no_other() {
    for (accepts, restart, calls) in [
        (true, true, vec!["write User 0 [5] 9", "reset"]),
        (true, false, vec!["write User 0 [5] 9"]),
        (false, true, vec!["write User 0 [5] 9"]),
    ] {
        let mut storage = Recorder { accepts, calls: Vec::new() };
        let mut uncommitted = true;
        assert_eq!(
            save_config(&[5], &mut uncommitted, Partition::User, &mut storage, restart, 9),
            accepts
        );
        assert_eq!(storage.calls, calls);
        assert_eq!(uncommitted, !accepts, "a failed save leaves the partition uncommitted");
        assert_eq!(
            after_write(accepts, restart),
            Saved { reset: accepts && restart, committed: accepts, ok: accepts }
        );
    }
}

const PORT_COUNT: u8 = 2;
const PACKET_ID_ALL_PORTS: u32 = 0;
const PACKET_ID_PORT1: u32 = 1;
const PACKET_ID_PORT2: u32 = 2;
const PACKET_ID_PORT_MASK: u32 = 0x3;

const IDS: PacketIds = PacketIds {
    all_ports: PACKET_ID_ALL_PORTS,
    port1: PACKET_ID_PORT1,
    port2: PACKET_ID_PORT2,
    port_mask: PACKET_ID_PORT_MASK,
};

#[test]
fn ports_are_one_based_on_both_sides() {
    assert_eq!(packet_id(&IDS, Egress::Port(1)), Some(PACKET_ID_PORT1));
    assert_eq!(packet_id(&IDS, Egress::Port(2)), Some(PACKET_ID_PORT2));
    assert_eq!(packet_id(&IDS, Egress::AllPorts), Some(PACKET_ID_ALL_PORTS));

    assert_eq!(ingress_port(&IDS, PACKET_ID_PORT1, PORT_COUNT), 1);
    assert_eq!(ingress_port(&IDS, PACKET_ID_PORT2, PORT_COUNT), 2);
}

#[test]
fn ports_the_device_does_not_have_are_refused() {
    for port in [0u8, 3, 15, 255] {
        assert_eq!(packet_id(&IDS, Egress::Port(port)), None, "port {port}");
        assert_eq!(
            prepare_send(&IDS, Egress::Port(port), 10, Some(100)),
            Err(PhyError::NoSuchPort(port))
        );
        assert!(!has_port(port, PORT_COUNT));
    }
    assert!(has_port(1, PORT_COUNT) && has_port(2, PORT_COUNT));
}

#[test]
fn an_unexpected_received_id_is_reported_as_unknown() {
    for id in [0u32, 3, 0xFF, 0x1234] {
        let port = ingress_port(&IDS, id, PORT_COUNT);
        assert_eq!(port, 0, "id {id:#x}");
    }
    // And on a one-port device, port 2 is not a thing either.
    assert_eq!(ingress_port(&IDS, PACKET_ID_PORT2, 1), 0);
    assert_eq!(ingress_port(&IDS, PACKET_ID_PORT1, 1), 1);
}

#[test]
fn bits_outside_the_port_mask_are_ignored() {
    let reserved = !PACKET_ID_PORT_MASK;
    assert_eq!(ingress_port(&IDS, PACKET_ID_PORT1 | reserved, PORT_COUNT), 1);
    assert_eq!(ingress_port(&IDS, PACKET_ID_PORT2 | reserved, PORT_COUNT), 2);
}

#[test]
fn a_send_is_refused_before_the_driver_is_asked() {
    assert_eq!(prepare_send(&IDS, Egress::AllPorts, 100, Some(100)), Ok(0));
    assert_eq!(
        prepare_send(&IDS, Egress::AllPorts, 101, Some(100)),
        Err(PhyError::FrameTooLarge { len: 101, capacity: 100 })
    );
    assert_eq!(prepare_send(&IDS, Egress::Port(1), 1, None), Err(PhyError::OutOfBuffers));
    assert_eq!(receive_len(10, 4), 4);
    assert_eq!(receive_len(3, 4), 3);
}
