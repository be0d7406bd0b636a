//! Comparing the utilities: timeouts, calendar dates, wildcard patterns,
//! bounded strings and addresses.
use vstd::prelude::*;

use crate::bytes::{le, le_bytes, shorter};
use crate::frame::Address;
use crate::fuzz::{
    draw_array, draw_in_range, draw_last_array, draw_u16, draw_u32, draw_u64, draw_u8, draw_vec,
    drawn_vec, in_range, last_array, padded, past_range, past_vec, rest, source, unread,
};
use crate::port::UtcDateTime;
use arbitrary::Unstructured;

verus! {

/// What a timeout is made of. Any three numbers are.
#[derive(Debug, Clone, Copy, PartialEq, Eq, Structural)]
pub struct TimeRemainingInput {
    /// Tick the timeout started at.
    pub start: u32,
    /// Current tick.
    pub current: u32,
    /// Timeout in ticks.
    pub timeout: u32,
}

impl TimeRemainingInput {
    /// Draw an input.
    pub fn arbitrary(u: &mut Unstructured<'_>) -> (r: Self)
        ensures
            ({
                let s = unread(old(u));
                &&& r.start == le(padded(s, 4))
                &&& r.current == le(padded(rest(s, 4), 4))
                &&& r.timeout == le(padded(rest(s, 8), 4))
                &&& unread(final(u)) == rest(s, 12)
            }),
    {
        let ghost s = unread(u);
        let start = draw_u32(u);
        let current = draw_u32(u);
        assert(rest(rest(s, 4), 4) =~= rest(s, 8));
        let timeout = draw_u32(u);
        assert(rest(rest(s, 8), 4) =~= rest(s, 12));
        TimeRemainingInput { start, current, timeout }
    }

    /// The input a seed file holds.
    pub fn from_seed(seed: &[u8]) -> (r: Self)
        ensures
            r.start == le(padded(seed@, 4)),
            r.current == le(padded(rest(seed@, 4), 4)),
            r.timeout == le(padded(rest(seed@, 8), 4)),
    {
        let mut u = source(seed);
        Self::arbitrary(&mut u)
    }
}

/// A calendar date-time, where the reference is defined on it.
///
/// Outside 1..=12 the reference reads past its table of months. Every other
/// field spans its whole range, nonsense included: that is wrapping arithmetic
/// and is compared.
#[derive(Debug, Clone, Copy, PartialEq, Eq, Structural)]
pub struct DateTimeInput {
    /// Full year.
    pub year: u16,
    /// Month, 1..=12.
    pub month: u8,
    /// Day of the month.
    pub day: u8,
    /// Hour.
    pub hour: u8,
    /// Minute.
    pub minute: u8,
    /// Second.
    pub second: u8,
    /// Microseconds since the epoch, for the way back. Below 2^58, so that
    /// counting the years up stays short.
    pub utc_us: u64,
}

/// One past the largest number of microseconds an input carries.
pub const UTC_US_LIMIT: u64 = 0x0400_0000_0000_0000;

impl DateTimeInput {
    /// Whether the reference is defined on this input.
    pub open spec fn in_domain(self) -> bool {
        1 <= self.month <= 12 && self.utc_us < UTC_US_LIMIT
    }

    /// Every field is drawn from `s`.
    pub open spec fn drawn_from(self, s: Seq<u8>) -> bool {
        let t = past_range(rest(s, 2), 11);
        &&& self.year == le(padded(s, 2))
        &&& self.month == in_range(rest(s, 2), 1, 12)
        &&& self.day == padded(t, 4)[0]
        &&& self.hour == padded(t, 4)[1]
        &&& self.minute == padded(t, 4)[2]
        &&& self.second == padded(t, 4)[3]
        &&& self.utc_us == le(padded(rest(t, 4), 8)) % UTC_US_LIMIT as nat
    }

    /// Draw an input.
    pub fn arbitrary(u: &mut Unstructured<'_>) -> (r: Self)
        ensures
            r.in_domain(),
            r.drawn_from(unread(old(u))),
            unread(final(u)) == rest(past_range(rest(unread(old(u)), 2), 11), 12),
    {
        let ghost s = unread(u);
        let year = draw_u16(u);
        let month = draw_in_range(u, 1, 12) as u8;
        let ghost t = unread(u);
        let day = draw_u8(u);
        let hour = draw_u8(u);
        let minute = draw_u8(u);
        let second = draw_u8(u);
        assert(unread(u) =~= rest(t, 4));
        let utc_us = draw_u64(u) % UTC_US_LIMIT;
        assert(unread(u) =~= rest(t, 12));
        DateTimeInput { year, month, day, hour, minute, second, utc_us }
    }

    /// The input a seed file holds.
    pub fn from_seed(seed: &[u8]) -> (r: Self)
        ensures
            r.in_domain(),
            r.drawn_from(seed@),
    {
        let mut u = source(seed);
        Self::arbitrary(&mut u)
    }
}

/// How the conversions differ.
#[derive(Debug, Clone, Copy, PartialEq, Eq, Structural)]
pub enum DateTimeDivergence {
    /// The seconds since the epoch differ.
    Seconds,
    /// The calendar dates differ.
    Calendar,
}

/// Whether both sides convert alike, both ways.
pub fn check_date_time(
    reference: (u32, UtcDateTime),
    node: (u32, UtcDateTime),
) -> (r: Result<(), DateTimeDivergence>)
    ensures
        r == if reference.0 != node.0 {
            Err(DateTimeDivergence::Seconds)
        } else if reference.1 != node.1 {
            Err(DateTimeDivergence::Calendar)
        } else {
            Ok::<(), DateTimeDivergence>(())
        },
{
    if reference.0 != node.0 {
        return Err(DateTimeDivergence::Seconds);
    }
    if reference.1 != node.1 {
        return Err(DateTimeDivergence::Calendar);
    }
    Ok(())
}

/// The longest string or pattern whose length the reference can be told.
pub const LONGEST: usize = 0xFFFF;

/// The front of `s` whose length the reference can be told.
fn tellable(s: &[u8]) -> (r: &[u8])
    ensures
        r@ == s@.take(shorter(s@.len(), LONGEST as nat) as int),
{
    let len: usize = if s.len() <= LONGEST {
        s.len()
    } else {
        LONGEST
    };
    vstd::slice::slice_subrange(s, 0, len)
}

/// A string and a wildcard pattern.
#[derive(Debug)]
pub struct WildcardInput {
    /// The string.
    pub s: Vec<u8>,
    /// The pattern.
    pub pattern: Vec<u8>,
}

impl WildcardInput {
    /// Draw an input.
    pub fn arbitrary(u: &mut Unstructured<'_>) -> (r: Self)
        ensures
            r.s@ == drawn_vec(unread(old(u))),
            r.pattern@ == drawn_vec(past_vec(unread(old(u)))),
            unread(final(u)) == past_vec(past_vec(unread(old(u)))),
    {
        let s = draw_vec(u);
        let pattern = draw_vec(u);
        WildcardInput { s, pattern }
    }

    /// The input a seed file holds.
    pub fn from_seed(seed: &[u8]) -> (r: Self)
        ensures
            r.s@ == drawn_vec(seed@),
            r.pattern@ == drawn_vec(past_vec(seed@)),
    {
        let mut u = source(seed);
        Self::arbitrary(&mut u)
    }

    /// The string and the pattern as both sides are given them: a length the
    /// reference cannot be told is cut off.
    #[must_use]
    pub fn compared(&self) -> (r: (&[u8], &[u8]))
        ensures
            r.0@ == self.s@.take(shorter(self.s@.len(), LONGEST as nat) as int),
            r.1@ == self.pattern@.take(shorter(self.pattern@.len(), LONGEST as nat) as int),
    {
        (tellable(self.s.as_slice()), tellable(self.pattern.as_slice()))
    }
}

/// A buffer, and how far to look for its end.
#[derive(Debug)]
pub struct StrnlenInput {
    /// Bytes to scan.
    pub buf: Vec<u8>,
    /// How far to look. Past the buffer the reference would read out of
    /// bounds.
    pub max_length: u16,
}

impl StrnlenInput {
    /// Draw an input.
    pub fn arbitrary(u: &mut Unstructured<'_>) -> (r: Self)
        ensures
            r.buf@ == drawn_vec(unread(old(u))),
            r.max_length == le(padded(past_vec(unread(old(u))), 2)),
            unread(final(u)) == rest(past_vec(unread(old(u))), 2),
    {
        let buf = draw_vec(u);
        let max_length = draw_u16(u);
        StrnlenInput { buf, max_length }
    }

    /// The input a seed file holds.
    pub fn from_seed(seed: &[u8]) -> (r: Self)
        ensures
            r.buf@ == drawn_vec(seed@),
            r.max_length == le(padded(past_vec(seed@), 2)),
    {
        let mut u = source(seed);
        Self::arbitrary(&mut u)
    }

    /// How far both sides look: never past the buffer.
    #[must_use]
    pub fn bound(&self) -> (r: usize)
        ensures
            r == shorter(self.max_length as nat, self.buf@.len()),
    {
        let asked = self.max_length as usize;
        if asked <= self.buf.len() {
            asked
        } else {
            self.buf.len()
        }
    }
}

/// A raw IPv6 address.
#[derive(Debug, Clone, Copy)]
pub struct AddrInput {
    /// The address.
    pub addr: Address,
}

impl AddrInput {
    /// Draw an input.
    pub fn arbitrary(u: &mut Unstructured<'_>) -> (r: Self)
        ensures
            r.addr@ == padded(unread(old(u)), 16),
            unread(final(u)) == rest(unread(old(u)), 16),
    {
        AddrInput { addr: draw_array::<16>(u) }
    }

    /// Draw an input from everything that is left. The address's last byte is
    /// then the one after its sixteen.
    pub fn arbitrary_take_rest(u: Unstructured<'_>) -> (r: Self)
        ensures
            r.addr@ == last_array(unread(&u), 16),
    {
        AddrInput { addr: draw_last_array::<16>(u) }
    }

    /// The input a seed file holds.
    pub fn from_seed(seed: &[u8]) -> (r: Self)
        ensures
            r.addr@ == last_array(seed@, 16),
    {
        Self::arbitrary_take_rest(source(seed))
    }

    /// The two bytes and the four bytes the narrower readings are taken of.
    #[must_use]
    pub fn heads(&self) -> (r: ([u8; 2], [u8; 4]))
        ensures
            r.0@ == self.addr@.take(2),
            r.1@ == self.addr@.take(4),
    {
        let pair = [self.addr[0], self.addr[1]];
        let quad = [self.addr[0], self.addr[1], self.addr[2], self.addr[3]];
        assert(pair@ =~= self.addr@.take(2));
        assert(quad@ =~= self.addr@.take(4));
        (pair, quad)
    }
}

/// What one side says about an address.
#[derive(Debug, Clone, Copy, PartialEq, Eq, Structural)]
pub struct AddrSeen {
    /// Whether it is a multicast address of every node.
    pub global_multicast: bool,
    /// Whether it is a multicast address of the link.
    pub link_local_multicast: bool,
    /// Whether it is the neighbours' address.
    pub neighbor_multicast: bool,
    /// The node id in it.
    pub node_id: u64,
    /// Its first two bytes as a number.
    pub head16: u16,
    /// Its first four bytes as a number.
    pub head32: u32,
}

/// How the two readings of an address differ.
#[derive(Debug, Clone, Copy, PartialEq, Eq, Structural)]
pub enum AddrDivergence {
    /// In whether it is a multicast address of every node.
    Global,
    /// In whether it is a multicast address of the link.
    LinkLocal,
    /// In whether it is the neighbours' address.
    Neighbor,
    /// The reference does not run on a little-endian machine, where alone its
    /// node ids mean anything.
    Endianness,
    /// In the node id.
    NodeId,
    /// In the first two bytes.
    Head16,
    /// In the first four bytes.
    Head32,
}

/// Whether both sides read an address alike.
pub fn check_addr(
    reference: &AddrSeen,
    node: &AddrSeen,
    little_endian: bool,
) -> (r: Result<(), AddrDivergence>)
    ensures
        r is Ok <==> *reference == *node && little_endian,
        r == if reference.global_multicast != node.global_multicast {
            Err(AddrDivergence::Global)
        } else if reference.link_local_multicast != node.link_local_multicast {
            Err(AddrDivergence::LinkLocal)
        } else if reference.neighbor_multicast != node.neighbor_multicast {
            Err(AddrDivergence::Neighbor)
        } else if !little_endian {
            Err(AddrDivergence::Endianness)
        } else if reference.node_id != node.node_id {
            Err(AddrDivergence::NodeId)
        } else if reference.head16 != node.head16 {
            Err(AddrDivergence::Head16)
        } else if reference.head32 != node.head32 {
            Err(AddrDivergence::Head32)
        } else {
            Ok::<(), AddrDivergence>(())
        },
{
    if reference.global_multicast != node.global_multicast {
        return Err(AddrDivergence::Global);
    }
    if reference.link_local_multicast != node.link_local_multicast {
        return Err(AddrDivergence::LinkLocal);
    }
    if reference.neighbor_multicast != node.neighbor_multicast {
        return Err(AddrDivergence::Neighbor);
    }
    if !little_endian {
        return Err(AddrDivergence::Endianness);
    }
    if reference.node_id != node.node_id {
        return Err(AddrDivergence::NodeId);
    }
    if reference.head16 != node.head16 {
        return Err(AddrDivergence::Head16);
    }
    if reference.head32 != node.head32 {
        return Err(AddrDivergence::Head32);
    }
    Ok(())
}

/// A date is drawn field by field from the bytes that were written for it, its
/// month folded into the year and its timestamp into what is compared.
pub proof fn law_a_written_date_is_drawn_back(
    input: DateTimeInput,
    year: u16,
    month: u8,
    day: u8,
    hour: u8,
    minute: u8,
    second: u8,
    utc_us: u64,
    more: Seq<u8>,
)
    requires
        1 <= month <= 12,
        utc_us < UTC_US_LIMIT,
        input.drawn_from(
            le_bytes(year as nat, 2) + (seq![(month - 1) as u8] + (seq![day, hour, minute, second]
                + (le_bytes(utc_us as nat, 8) + more))),
        ),
    ensures
        input.year == year,
        input.month == month,
        input.day == day,
        input.hour == hour,
        input.minute == minute,
        input.second == second,
        input.utc_us == utc_us,
        input.in_domain(),
{
    broadcast use crate::bytes::lemma_le_bytes_len;

    let clock = seq![day, hour, minute, second];
    let s3 = le_bytes(utc_us as nat, 8) + more;
    let s2 = clock + s3;
    let tag = (month - 1) as u8;
    let s1 = seq![tag] + s2;
    crate::bytes::law_le_bytes_fit(year as nat);
    crate::bytes::law_le_bytes_fit(utc_us as nat);
    crate::fuzz::law_what_is_written_first_is_drawn_first(le_bytes(year as nat, 2), s1, 0);
    crate::fuzz::law_a_tag_is_one_byte(tag, 12, s2);
    crate::fuzz::law_what_is_written_first_is_drawn_first(clock, s3, 0);
    crate::fuzz::law_what_is_written_first_is_drawn_first(le_bytes(utc_us as nat, 8), more, 0);
    vstd::arithmetic::div_mod::lemma_small_mod(utc_us as nat, UTC_US_LIMIT as nat);
}

/// A date may be any whose month the calendar has, and a time any below two to
/// the fifty-eighth microseconds.
pub proof fn law_a_date_is_bounded(input: DateTimeInput)
    ensures
        input.in_domain() <==> 1 <= input.month && input.month <= 12 && input.utc_us
            <= 0x03FF_FFFF_FFFF_FFFF,
{
}

} // verus!
