//! The seams an integrator fills: the PHY, the node's identity, its clock and
//! its configuration storage.
use vstd::prelude::*;

use crate::bytes::{overlay, put, zeros};
use crate::message::DeviceInfo;
use vstd::slice::slice_subrange;

verus! {

/// Where a frame should go.
#[derive(Debug, Clone, Copy, PartialEq, Eq, Structural)]
pub enum Egress {
    /// Every port at once.
    AllPorts,
    /// One port, 1-based.
    Port(u8),
}

/// A port-aware Ethernet PHY: what it is, apart from its transfers.
///
/// Bristlemouth encodes the ingress port into the source address of every
/// frame it receives and picks an egress port per copy on transmit, so a
/// driver that hides which port a frame came from cannot carry the protocol.
pub trait Phy {
    /// How many ports the device has. Left open where an implementation does
    /// not say.
    open spec fn ports(&self) -> u8 {
        arbitrary()
    }

    /// How many ports the device has. Ports are numbered 1..=`port_count`.
    fn port_count(&self) -> (r: u8)
        ensures
            r == self.ports(),
    ;

    /// Whether the link on `port` is up, as of the last time the driver
    /// serviced the PHY. A port the device does not have reports `false`.
    fn link_up(&self, port: u8) -> (r: bool)
        ensures
            r ==> 1 <= port <= self.ports(),
    ;
}

/// What this node says about itself when asked.
pub trait Identity {
    /// This node's 64-bit id. Left open where an implementation does not say.
    open spec fn id(&self) -> u64 {
        arbitrary()
    }

    /// The fixed half of a device-info reply. Left open where an
    /// implementation does not say.
    open spec fn info(&self) -> DeviceInfo {
        arbitrary()
    }

    /// The firmware version string's bytes.
    open spec fn version(&self) -> Seq<u8> {
        Seq::empty()
    }

    /// The device name's bytes.
    open spec fn name(&self) -> Seq<u8> {
        Seq::empty()
    }

    /// This node's 64-bit id. Its addresses and its MAC are derived from it.
    fn node_id(&self) -> (r: u64)
        ensures
            r == self.id(),
    ;

    /// The fixed half of a device-info reply. `node_id` is overwritten with
    /// [`Identity::node_id`], so an implementation may leave it zero.
    fn device_info(&self) -> (r: DeviceInfo)
        ensures
            r == self.info(),
    ;

    /// Firmware version string. At most 255 bytes reach the wire.
    fn version_string(&self) -> (r: &[u8])
        ensures
            r@ == self.version(),
    ;

    /// Device name. At most 255 bytes reach the wire.
    fn device_name(&self) -> (r: &[u8])
        ensures
            r@ == self.name(),
    ;
}

/// A wall-clock reading.
#[derive(Debug, Clone, Copy, PartialEq, Eq, Structural)]
pub struct RtcTimeAndDate {
    /// Full year, e.g. 2026.
    pub year: u16,
    /// Month, 1-12.
    pub month: u8,
    /// Day of month, starting at 1.
    pub day: u8,
    /// Hour, 0-23.
    pub hour: u8,
    /// Minute, 0-59.
    pub minute: u8,
    /// Second, 0-59.
    pub second: u8,
    /// Milliseconds within the second. The clock's whole sub-second
    /// resolution: microseconds arriving over the wire are truncated to it.
    pub ms: u16,
}

impl Default for RtcTimeAndDate {
    fn default() -> (r: Self)
        ensures
            r == (RtcTimeAndDate {
                year: 0,
                month: 0,
                day: 0,
                hour: 0,
                minute: 0,
                second: 0,
                ms: 0,
            }),
    {
        RtcTimeAndDate { year: 0, month: 0, day: 0, hour: 0, minute: 0, second: 0, ms: 0 }
    }
}

/// A calendar date and time, to the microsecond.
#[derive(Debug, Clone, Copy, PartialEq, Eq, Structural)]
pub struct UtcDateTime {
    /// Full year.
    pub year: u16,
    /// Month, 1-12.
    pub month: u8,
    /// Day of month, starting at 1.
    pub day: u8,
    /// Hour, 0-23.
    pub hour: u8,
    /// Minute, 0-59.
    pub min: u8,
    /// Second, 0-59.
    pub sec: u8,
    /// Microseconds within the second.
    pub usec: u32,
}

impl RtcTimeAndDate {
    /// Microseconds since the Unix epoch of a reading that lies `ms`
    /// milliseconds into second `seconds`.
    pub open spec fn utc_micros(self, seconds: u32) -> int {
        seconds * 1_000_000 + self.ms * 1_000
    }

    /// Microseconds since the Unix epoch, given the whole seconds since then
    /// that the reading's calendar fields stand for.
    ///
    /// The seconds are 32 bits wide and run out in 2106; the multiplication is
    /// done in 64 bits.
    #[must_use]
    pub fn to_utc_micros(&self, seconds: u32) -> (r: u64)
        ensures
            r == self.utc_micros(seconds),
    {
        (seconds as u64) * 1_000_000 + (self.ms as u64) * 1_000
    }

    /// The reading a clock is set to for a calendar date and time: the same
    /// fields, with everything below the millisecond discarded.
    pub open spec fn set_to(utc: UtcDateTime) -> Self {
        RtcTimeAndDate {
            year: utc.year,
            month: utc.month,
            day: utc.day,
            hour: utc.hour,
            minute: utc.min,
            second: utc.sec,
            ms: (utc.usec / 1000) as u16,
        }
    }

    /// The reading a clock is set to for a calendar date and time.
    #[must_use]
    pub fn from_utc_micros(utc: &UtcDateTime) -> (r: Self)
        ensures
            r == Self::set_to(*utc),
            utc.usec < 1_000_000 ==> r.ms == utc.usec / 1000,
    {
        RtcTimeAndDate {
            year: utc.year,
            month: utc.month,
            day: utc.day,
            hour: utc.hour,
            minute: utc.min,
            second: utc.sec,
            ms: (utc.usec / 1000) as u16,
        }
    }
}

/// Setting a clock loses less than a millisecond, and nothing else: a reading
/// taken straight after, in the same second, is the requested instant rounded
/// down to the millisecond.
pub proof fn law_a_set_truncates_below_the_millisecond(
    utc: UtcDateTime,
    kept: RtcTimeAndDate,
    seconds: u32,
)
    requires
        utc.usec < 1_000_000,
        kept.ms == utc.usec / 1000,
    ensures
        ({
            let requested = seconds * 1_000_000 + utc.usec;
            let reported = kept.utc_micros(seconds);
            reported <= requested < reported + 1000 && reported % 1000 == 0
        }),
{
    let reported = kept.utc_micros(seconds);
    assert(reported == (seconds * 1000 + kept.ms) * 1000);
    vstd::arithmetic::div_mod::lemma_mod_multiples_basic(seconds * 1000 + kept.ms, 1000);
}

/// How many microseconds the thirty-two bits of seconds reach.
pub const UTC_US_REACH: u64 = 0x1_0000_0000 * 1_000_000;

/// Whether two conversions invert each other at an instant: `calendar` puts it
/// on the calendar with its microseconds beside it, and `seconds` takes the
/// calendar fields (year, month, day, hour, minute, second) back to the whole
/// seconds.
pub open spec fn inverted_at(
    calendar: spec_fn(u64) -> UtcDateTime,
    seconds: spec_fn(u16, u8, u8, u8, u8, u8) -> u32,
    utc_us: u64,
) -> bool {
    let utc = calendar(utc_us);
    &&& utc.usec == utc_us % 1_000_000
    &&& seconds(utc.year, utc.month, utc.day, utc.hour, utc.min, utc.sec) == utc_us / 1_000_000
}

/// A clock set to an instant reads that instant without the part below the
/// millisecond, and loses nothing else: through any calendar whose two
/// conversions invert each other, for every instant the seconds reach.
pub proof fn law_the_clock_loses_only_what_is_below_the_millisecond(
    calendar: spec_fn(u64) -> UtcDateTime,
    seconds: spec_fn(u16, u8, u8, u8, u8, u8) -> u32,
    utc_us: u64,
)
    requires
        utc_us < UTC_US_REACH,
        inverted_at(calendar, seconds, utc_us),
    ensures
        ({
            let kept = RtcTimeAndDate::set_to(calendar(utc_us));
            let whole = seconds(
                kept.year,
                kept.month,
                kept.day,
                kept.hour,
                kept.minute,
                kept.second,
            );
            kept.utc_micros(whole) == utc_us - utc_us % 1000
        }),
{
}

/// The node's real-time clock.
///
/// A node whose clock refuses either operation says nothing on the wire.
pub trait Rtc {
    /// Read the clock. `None` stands for every way that can fail, a clock
    /// that has never been set among them.
    fn get(&self) -> (r: Option<RtcTimeAndDate>);

    /// Set the clock. `false` is any failure.
    fn set(&mut self, time_and_date: &RtcTimeAndDate) -> (r: bool);
}

/// A node with no real-time clock: both operations fail.
#[derive(Debug, Clone, Copy, PartialEq, Eq, Structural)]
pub struct NoRtc;

impl Default for NoRtc {
    fn default() -> (r: Self) {
        NoRtc
    }
}

impl Rtc for NoRtc {
    fn get(&self) -> (r: Option<RtcTimeAndDate>)
        ensures
            r is None,
    {
        None
    }

    fn set(&mut self, time_and_date: &RtcTimeAndDate) -> (r: bool)
        ensures
            !r,
    {
        false
    }
}

/// A clock kept in RAM, with no hardware behind it: it remembers what it was
/// set to, refuses to be read until something sets it, and does not advance.
#[derive(Debug, Clone, Copy, PartialEq, Eq)]
pub struct SoftRtc {
    reading: Option<RtcTimeAndDate>,
    read_only: bool,
}

impl SoftRtc {
    /// What the clock reads, if it has been set.
    pub closed spec fn shows(&self) -> Option<RtcTimeAndDate> {
        self.reading
    }

    /// Whether the clock refuses to be set.
    pub closed spec fn refuses(&self) -> bool {
        self.read_only
    }

    /// A clock nothing has set yet.
    #[must_use]
    pub fn new() -> (r: Self)
        ensures
            r.shows() is None,
            !r.refuses(),
    {
        SoftRtc { reading: None, read_only: false }
    }

    /// A clock already reading `reading`.
    #[must_use]
    pub fn at(reading: RtcTimeAndDate) -> (r: Self)
        ensures
            r.shows() == Some(reading),
            !r.refuses(),
    {
        SoftRtc { reading: Some(reading), read_only: false }
    }

    /// A clock that reads but refuses to be set.
    #[must_use]
    pub fn read_only(reading: RtcTimeAndDate) -> (r: Self)
        ensures
            r.shows() == Some(reading),
            r.refuses(),
    {
        SoftRtc { reading: Some(reading), read_only: true }
    }

    /// What it currently reads, without going through [`Rtc::get`].
    #[must_use]
    pub fn reading(&self) -> (r: Option<RtcTimeAndDate>)
        ensures
            r == self.shows(),
    {
        self.reading
    }
}

impl Default for SoftRtc {
    fn default() -> (r: Self)
        ensures
            r.shows() is None,
            !r.refuses(),
    {
        SoftRtc::new()
    }
}

impl Rtc for SoftRtc {
    fn get(&self) -> (r: Option<RtcTimeAndDate>)
        ensures
            r == self.shows(),
    {
        self.reading
    }

    fn set(&mut self, time_and_date: &RtcTimeAndDate) -> (r: bool)
        ensures
            r == !old(self).refuses(),
            final(self).refuses() == old(self).refuses(),
            final(self).shows() == if r { Some(*time_and_date) } else { old(self).shows() },
    {
        if self.read_only {
            return false;
        }
        self.reading = Some(*time_and_date);
        true
    }
}

/// One of the three configuration partitions.
#[derive(Debug, Clone, Copy, PartialEq, Eq, Structural)]
pub enum Partition {
    /// Settings of the user.
    User,
    /// Settings of the system.
    System,
    /// Settings of the hardware.
    Hardware,
}

/// Non-volatile storage for the configuration partitions.
///
/// What a call may do to the storage is for each storage to say; callers speak
/// of it through the three relations, which promise nothing where an
/// implementation does not say more.
pub trait ConfigStorage: Sized {
    /// Reading over `buf`, for at most `timeout_ms`, took the storage from
    /// `before` to `after`, left `filled` behind and returned `r`.
    open spec fn has_read(
        before: &Self,
        after: &Self,
        partition: Partition,
        offset: u32,
        buf: Seq<u8>,
        timeout_ms: u32,
        filled: Seq<u8>,
        r: bool,
    ) -> bool {
        true
    }

    /// Writing `buf`, for at most `timeout_ms`, took the storage from `before`
    /// to `after` and returned `r`.
    open spec fn has_written(
        before: &Self,
        after: &Self,
        partition: Partition,
        offset: u32,
        buf: Seq<u8>,
        timeout_ms: u32,
        r: bool,
    ) -> bool {
        true
    }

    /// Resetting took the storage from `before` to `after`.
    open spec fn has_reset(before: &Self, after: &Self) -> bool {
        true
    }

    /// Fill `buf` from `offset` in `partition`. Whatever is written to `buf`
    /// stays there even if this returns `false`.
    fn read(
        &mut self,
        partition: Partition,
        offset: u32,
        buf: &mut [u8],
        timeout_ms: u32,
    ) -> (r: bool)
        ensures
            Self::has_read(
                old(self),
                final(self),
                partition,
                offset,
                old(buf)@,
                timeout_ms,
                final(buf)@,
                r,
            ),
            final(buf)@.len() == old(buf)@.len(),
    ;

    /// Store `buf` at `offset` in `partition`.
    fn write(
        &mut self,
        partition: Partition,
        offset: u32,
        buf: &[u8],
        timeout_ms: u32,
    ) -> (r: bool)
        ensures
            Self::has_written(old(self), final(self), partition, offset, buf@, timeout_ms, r),
    ;

    /// Reset the processor, after a save that asked for a restart.
    fn reset(&mut self)
        ensures
            Self::has_reset(old(self), final(self)),
    ;
}

/// Configuration partitions kept in RAM. Contents are zero until written, and
/// are lost with the value.
#[derive(Clone)]
pub struct RamConfigStorage {
    user: Vec<u8>,
    system: Vec<u8>,
    hardware: Vec<u8>,
}

impl RamConfigStorage {
    /// One partition's bytes.
    pub closed spec fn image(&self, partition: Partition) -> Seq<u8> {
        match partition {
            Partition::User => self.user@,
            Partition::System => self.system@,
            Partition::Hardware => self.hardware@,
        }
    }

    /// Whether `len` bytes at `offset` lie inside a partition.
    pub open spec fn holds(&self, partition: Partition, offset: u32, len: nat) -> bool {
        offset + len <= self.image(partition).len()
    }

    /// Three zeroed partitions of `image_len` bytes each.
    #[must_use]
    pub fn new(image_len: usize) -> (r: Self)
        ensures
            forall|p: Partition|
                #[trigger] r.image(p) == Seq::new(image_len as nat, |i: int| 0u8),
    {
        RamConfigStorage {
            user: zeros(image_len),
            system: zeros(image_len),
            hardware: zeros(image_len),
        }
    }

    /// One partition's bytes.
    #[must_use]
    pub fn bytes(&self, partition: Partition) -> (r: &[u8])
        ensures
            r@ == self.image(partition),
    {
        match partition {
            Partition::User => self.user.as_slice(),
            Partition::System => self.system.as_slice(),
            Partition::Hardware => self.hardware.as_slice(),
        }
    }

    /// One partition's bytes, mutably.
    pub fn bytes_mut(&mut self, partition: Partition) -> (r: &mut [u8])
        ensures
            r@ == old(self).image(partition),
            final(self).image(partition) == final(r)@,
            forall|p: Partition| p != partition ==> final(self).image(p) == #[trigger] old(
                self,
            ).image(p),
    {
        match partition {
            Partition::User => self.user.as_mut_slice(),
            Partition::System => self.system.as_mut_slice(),
            Partition::Hardware => self.hardware.as_mut_slice(),
        }
    }

    /// Where `len` bytes at `offset` start, if they lie inside `partition`.
    fn range(&self, partition: Partition, offset: u32, len: usize) -> (r: Option<usize>)
        ensures
            r is Some <==> self.holds(partition, offset, len as nat),
            r matches Some(start) ==> start == offset,
    {
        let start: usize = offset as usize;
        let image_len: usize = self.bytes(partition).len();
        if start <= image_len && len <= image_len - start {
            Some(start)
        } else {
            None
        }
    }
}

impl ConfigStorage for RamConfigStorage {
    open spec fn has_read(
        before: &Self,
        after: &Self,
        partition: Partition,
        offset: u32,
        buf: Seq<u8>,
        timeout_ms: u32,
        filled: Seq<u8>,
        r: bool,
    ) -> bool {
        &&& forall|p: Partition| after.image(p) == #[trigger] before.image(p)
        &&& r == before.holds(partition, offset, buf.len())
        &&& filled == if r {
            before.image(partition).subrange(offset as int, offset + buf.len())
        } else {
            buf
        }
    }

    open spec fn has_written(
        before: &Self,
        after: &Self,
        partition: Partition,
        offset: u32,
        buf: Seq<u8>,
        timeout_ms: u32,
        r: bool,
    ) -> bool {
        &&& r == before.holds(partition, offset, buf.len())
        &&& forall|p: Partition| p != partition ==> after.image(p) == #[trigger] before.image(p)
        &&& after.image(partition) == if r {
            overlay(before.image(partition), offset as int, buf)
        } else {
            before.image(partition)
        }
    }

    open spec fn has_reset(before: &Self, after: &Self) -> bool {
        forall|p: Partition| after.image(p) == #[trigger] before.image(p)
    }

    fn read(
        &mut self,
        partition: Partition,
        offset: u32,
        buf: &mut [u8],
        timeout_ms: u32,
    ) -> (r: bool) {
        match self.range(partition, offset, buf.len()) {
            None => false,
            Some(start) => {
                let image = self.bytes(partition);
                let image_len: usize = image.len();
                assert(start + buf@.len() <= image_len);
                let part = slice_subrange(image, start, start + buf.len());
                put(buf, 0, part);
                assert(buf@ =~= part@);
                true
            },
        }
    }

    fn write(
        &mut self,
        partition: Partition,
        offset: u32,
        buf: &[u8],
        timeout_ms: u32,
    ) -> (r: bool) {
        match self.range(partition, offset, buf.len()) {
            None => false,
            Some(start) => {
                put(self.bytes_mut(partition), start, buf);
                true
            },
        }
    }

    fn reset(&mut self) {
    }
}

/// What a partition was last written is what it reads back, at the same
/// offset and for the same length.
pub proof fn law_a_write_reads_back(image: Seq<u8>, offset: u32, written: Seq<u8>)
    requires
        offset + written.len() <= image.len(),
    ensures
        overlay(image, offset as int, written).len() == image.len(),
        overlay(image, offset as int, written).subrange(
            offset as int,
            offset + written.len(),
        ) == written,
{
    assert(overlay(image, offset as int, written).subrange(
        offset as int,
        offset + written.len(),
    ) =~= written);
}

/// A calendar date and time is kept field by field, down to the millisecond.
pub proof fn law_a_clock_keeps_every_field(utc: UtcDateTime)
    requires
        utc.usec < 1_000_000,
    ensures
        ({
            let kept = RtcTimeAndDate::set_to(utc);
            &&& kept.year == utc.year && kept.month == utc.month && kept.day == utc.day
            &&& kept.hour == utc.hour && kept.minute == utc.min && kept.second == utc.sec
            &&& kept.ms * 1000 <= utc.usec < (kept.ms + 1) * 1000
        }),
{
}

/// A later second, or a later millisecond of the same second, reads as a later
/// time, by as many microseconds as lie between them.
pub proof fn law_a_clock_counts_in_milliseconds(
    a: RtcTimeAndDate,
    b: RtcTimeAndDate,
    first: u32,
    second: u32,
)
    ensures
        b.utc_micros(second) - a.utc_micros(first) == ((second - first) * 1000 + (b.ms - a.ms))
            * 1000,
        (RtcTimeAndDate { ms: 0, ..a }).utc_micros(0) == 0,
{
}

/// RAM holds what lies inside a partition, and nothing past its end.
pub proof fn law_ram_holds_what_lies_inside(
    storage: RamConfigStorage,
    partition: Partition,
    offset: u32,
    len: nat,
)
    ensures
        storage.holds(partition, offset, len) <==> offset + len <= storage.image(partition).len(),
{
}

/// A read of RAM changes nothing and gives what lies at the offset, and a write
/// is what a later read gives; neither reaches past the end of a partition.
pub proof fn law_ram_reads_what_was_written(
    before: RamConfigStorage,
    between: RamConfigStorage,
    after: RamConfigStorage,
    partition: Partition,
    offset: u32,
    written: Seq<u8>,
    buf: Seq<u8>,
    filled: Seq<u8>,
    timeout_ms: u32,
    stored: bool,
    read: bool,
)
    requires
        RamConfigStorage::has_written(
            &before,
            &between,
            partition,
            offset,
            written,
            timeout_ms,
            stored,
        ),
        RamConfigStorage::has_read(
            &between,
            &after,
            partition,
            offset,
            buf,
            timeout_ms,
            filled,
            read,
        ),
        buf.len() == written.len(),
    ensures
        stored <==> offset + written.len() <= before.image(partition).len(),
        read == stored,
        read ==> filled == written,
        !read ==> filled == buf,
        after.image(partition) == between.image(partition),
        !stored ==> between.image(partition) == before.image(partition),
{
    if stored {
        law_a_write_reads_back(before.image(partition), offset, written);
    }
}

/// A restart does not touch what is stored, and a write touches its own
/// partition alone.
pub proof fn law_a_restart_keeps_what_is_stored(
    before: RamConfigStorage,
    after: RamConfigStorage,
    partition: Partition,
    other: Partition,
    offset: u32,
    written: Seq<u8>,
    timeout_ms: u32,
    stored: bool,
)
    ensures
        RamConfigStorage::has_reset(&before, &after) ==> after.image(other) == before.image(other),
        RamConfigStorage::has_written(
            &before,
            &after,
            partition,
            offset,
            written,
            timeout_ms,
            stored,
        ) && other != partition ==> after.image(other) == before.image(other),
{
}

} // verus!
