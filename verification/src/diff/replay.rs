//! Which comparison a directory of seed files belongs to.
//!
//! Seed files are decoded as a fuzzer would decode them, so a file replays the
//! same way everywhere, and a crash becomes a regression test by dropping its
//! input into the directory it belongs in.
use vstd::prelude::*;

use crate::bytes::first_difference;

verus! {

/// A comparison seeds can be replayed through.
#[derive(Debug, Clone, Copy, PartialEq, Eq, Structural)]
pub enum Target {
    /// `addr`
    Addr,
    /// `bcmp`
    Packet,
    /// `checksum`
    Checksum,
    /// `crc`
    Crc,
    /// `date_time`
    DateTime,
    /// `l2_policy`
    L2Policy,
    /// `strnlen`
    Strnlen,
    /// `time_remaining`
    TimeRemaining,
    /// `wildcard`
    Wildcard,
    /// `l2_egress`
    L2Egress,
}

/// The comparisons that are safe to replay in one process, together, in any
/// order.
pub const TARGETS: [Target; 9] = [
    Target::Addr,
    Target::Packet,
    Target::Checksum,
    Target::Crc,
    Target::DateTime,
    Target::L2Policy,
    Target::Strnlen,
    Target::TimeRemaining,
    Target::Wildcard,
];

/// The comparisons that bring the reference's stack up and so need a process to
/// themselves.
pub const STACK_TARGETS: [Target; 1] = [Target::L2Egress];

/// `addr`, in ASCII.
pub const ADDR: [u8; 4] = [0x61, 0x64, 0x64, 0x72];

/// `bcmp`, in ASCII.
pub const PACKET: [u8; 4] = [0x62, 0x63, 0x6d, 0x70];

/// `checksum`, in ASCII.
pub const CHECKSUM: [u8; 8] = [0x63, 0x68, 0x65, 0x63, 0x6b, 0x73, 0x75, 0x6d];

/// `crc`, in ASCII.
pub const CRC: [u8; 3] = [0x63, 0x72, 0x63];

/// `date_time`, in ASCII.
pub const DATE_TIME: [u8; 9] = [0x64, 0x61, 0x74, 0x65, 0x5f, 0x74, 0x69, 0x6d, 0x65];

/// `l2_policy`, in ASCII.
pub const L2_POLICY: [u8; 9] = [0x6c, 0x32, 0x5f, 0x70, 0x6f, 0x6c, 0x69, 0x63, 0x79];

/// `strnlen`, in ASCII.
pub const STRNLEN: [u8; 7] = [0x73, 0x74, 0x72, 0x6e, 0x6c, 0x65, 0x6e];

/// `time_remaining`, in ASCII.
pub const TIME_REMAINING: [u8; 14] = [
    0x74, 0x69, 0x6d, 0x65, 0x5f, 0x72, 0x65, 0x6d, 0x61, 0x69, 0x6e, 0x69, 0x6e, 0x67,
];

/// `wildcard`, in ASCII.
pub const WILDCARD: [u8; 8] = [0x77, 0x69, 0x6c, 0x64, 0x63, 0x61, 0x72, 0x64];

/// `l2_egress`, in ASCII.
pub const L2_EGRESS: [u8; 9] = [0x6c, 0x32, 0x5f, 0x65, 0x67, 0x72, 0x65, 0x73, 0x73];

impl Target {
    /// The directory its seeds are in.
    pub open spec fn directory(self) -> Seq<u8> {
        match self {
            Target::Addr => ADDR@,
            Target::Packet => PACKET@,
            Target::Checksum => CHECKSUM@,
            Target::Crc => CRC@,
            Target::DateTime => DATE_TIME@,
            Target::L2Policy => L2_POLICY@,
            Target::Strnlen => STRNLEN@,
            Target::TimeRemaining => TIME_REMAINING@,
            Target::Wildcard => WILDCARD@,
            Target::L2Egress => L2_EGRESS@,
        }
    }

    /// The directory its seeds are in.
    #[must_use]
    pub fn name(self) -> (r: &'static [u8])
        ensures
            r@ == self.directory(),
    {
        match self {
            Target::Addr => &ADDR,
            Target::Packet => &PACKET,
            Target::Checksum => &CHECKSUM,
            Target::Crc => &CRC,
            Target::DateTime => &DATE_TIME,
            Target::L2Policy => &L2_POLICY,
            Target::Strnlen => &STRNLEN,
            Target::TimeRemaining => &TIME_REMAINING,
            Target::Wildcard => &WILDCARD,
            Target::L2Egress => &L2_EGRESS,
        }
    }

    /// Whether it needs a process to itself.
    #[must_use]
    pub fn needs_own_process(self) -> (r: bool)
        ensures
            r <==> STACK_TARGETS@.contains(self),
            r <==> !TARGETS@.contains(self),
    {
        proof {
            law_every_target_is_in_exactly_one_list(self);
            assert(STACK_TARGETS@[0] == Target::L2Egress);
        }
        self == Target::L2Egress
    }

    /// The comparison a directory's seeds are for, if it is one of them.
    #[must_use]
    pub fn named(name: &[u8]) -> (r: Option<Target>)
        ensures
            r matches Some(target) ==> target.directory() == name@,
            r is None ==> forall|target: Target| #[trigger] target.directory() != name@,
    {
        let mut index: usize = 0;
        while index < 9
            invariant
                index <= 9,
                forall|i: int|
                    0 <= i < index ==> (#[trigger] TARGETS@[i]).directory() != name@,
            decreases 9 - index,
        {
            let target = TARGETS[index];
            if first_difference(target.name(), name).is_none() {
                return Some(target);
            }
            index = index + 1;
        }
        if first_difference(Target::L2Egress.name(), name).is_none() {
            return Some(Target::L2Egress);
        }
        proof {
            assert forall|target: Target| #[trigger] target.directory() != name@ by {
                law_every_target_is_in_exactly_one_list(target);
                if TARGETS@.contains(target) {
                    let i = choose|i: int| 0 <= i < TARGETS@.len() && TARGETS@[i] == target;
                    assert(TARGETS@[i].directory() != name@);
                }
            }
        }
        None
    }
}

/// Every comparison is in exactly one of the two lists: one in neither would
/// silently never replay, and one in both would replay where it must not.
pub proof fn law_every_target_is_in_exactly_one_list(target: Target)
    ensures
        TARGETS@.contains(target) != STACK_TARGETS@.contains(target),
        STACK_TARGETS@.contains(target) <==> target is L2Egress,
{
    assert(TARGETS@[0] == Target::Addr);
    assert(TARGETS@[1] == Target::Packet);
    assert(TARGETS@[2] == Target::Checksum);
    assert(TARGETS@[3] == Target::Crc);
    assert(TARGETS@[4] == Target::DateTime);
    assert(TARGETS@[5] == Target::L2Policy);
    assert(TARGETS@[6] == Target::Strnlen);
    assert(TARGETS@[7] == Target::TimeRemaining);
    assert(TARGETS@[8] == Target::Wildcard);
    assert(STACK_TARGETS@[0] == Target::L2Egress);
}

/// No two comparisons share a directory.
pub proof fn law_no_two_targets_share_a_directory(a: Target, b: Target)
    requires
        a != b,
    ensures
        a.directory() != b.directory(),
{
    assert(a.directory().len() == b.directory().len() ==> a.directory()[0] != b.directory()[0]
        || a.directory()[3] != b.directory()[3]);
}

} // verus!
