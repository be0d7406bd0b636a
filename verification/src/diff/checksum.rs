//! Comparing the checksum over the IPv6 pseudo header, and the addresses
//! derived from a node id.
use vstd::prelude::*;

use crate::bytes::{first_difference, law_le_bytes_fit, le, le_bytes};
use crate::frame::Address;
use crate::fuzz::{
    draw_array, draw_u32, draw_u64, draw_u8, draw_vec, drawn_vec,
    law_a_vector_is_drawn_byte_by_byte, law_what_is_written_first_is_drawn_first, padded, past_vec,
    rest, source, unread,
};
use arbitrary::Unstructured;

verus! {

/// A captured packet with the checksum a live node agreed on.
#[derive(Debug)]
pub struct GoldVector {
    /// What it was captured from.
    pub name: &'static str,
    /// Source address.
    pub src: Address,
    /// Destination address.
    pub dst: Address,
    /// What the packet carries, its checksum field zeroed.
    pub data: &'static [u8],
    /// The checksum both sides must produce.
    pub expected: u16,
}

impl GoldVector {
    /// Whether both sides produce the checksum that was captured.
    #[must_use]
    pub fn agrees(&self, reference: u16, node: u16) -> (r: bool)
        ensures
            r <==> reference == self.expected && node == self.expected,
    {
        reference == self.expected && node == self.expected
    }

    /// The packet as an input of the comparison.
    #[must_use]
    pub fn input(&self, next_header: u8) -> (r: ChecksumInput)
        ensures
            r.src == self.src,
            r.dst == self.dst,
            r.next_header == next_header,
            r.data@ == self.data@,
            r.prefix == 0xFE80_0000u32,
            r.node_id == 0,
    {
        ChecksumInput {
            src: self.src,
            dst: self.dst,
            next_header,
            data: crate::bytes::copied(self.data),
            prefix: 0xFE80_0000,
            node_id: 0,
        }
    }
}

/// What a checksum is taken over, and what an address is derived from.
#[derive(Debug)]
pub struct ChecksumInput {
    /// Source address.
    pub src: Address,
    /// Destination address.
    pub dst: Address,
    /// Number of the upper protocol.
    pub next_header: u8,
    /// What the upper protocol carries.
    pub data: Vec<u8>,
    /// A prefix, to derive an address from.
    pub prefix: u32,
    /// A node id, likewise.
    pub node_id: u64,
}

impl ChecksumInput {
    /// Every field is drawn from `s`.
    pub open spec fn drawn_from(&self, s: Seq<u8>) -> bool {
        let t = past_vec(rest(s, 33));
        &&& self.src@ == padded(s, 16)
        &&& self.dst@ == padded(rest(s, 16), 16)
        &&& self.next_header == padded(rest(s, 32), 1)[0]
        &&& self.data@ == drawn_vec(rest(s, 33))
        &&& self.prefix == le(padded(t, 4))
        &&& self.node_id == le(padded(rest(t, 4), 8))
    }

    /// Draw an input.
    pub fn arbitrary(u: &mut Unstructured<'_>) -> (r: Self)
        ensures
            r.drawn_from(unread(old(u))),
            unread(final(u)) == rest(past_vec(rest(unread(old(u)), 33)), 12),
    {
        let ghost s = unread(u);
        let src = draw_array::<16>(u);
        let dst = draw_array::<16>(u);
        assert(unread(u) =~= rest(s, 32));
        let next_header = draw_u8(u);
        assert(unread(u) =~= rest(s, 33));
        let data = draw_vec(u);
        let ghost t = unread(u);
        let prefix = draw_u32(u);
        let node_id = draw_u64(u);
        assert(unread(u) =~= rest(t, 12));
        ChecksumInput { src, dst, next_header, data, prefix, node_id }
    }

    /// The input a seed file holds.
    pub fn from_seed(seed: &[u8]) -> (r: Self)
        ensures
            r.drawn_from(seed@),
    {
        let mut u = source(seed);
        Self::arbitrary(&mut u)
    }
}

/// What one side computes for an input.
#[derive(Debug)]
pub struct ChecksumSeen {
    /// The checksum.
    pub checksum: u16,
    /// The address of the node id under the prefix.
    pub address: Address,
    /// The MAC of the node id.
    pub mac: [u8; 6],
    /// The multicast MAC of the destination.
    pub multicast_mac: [u8; 6],
    /// Whether the destination is a multicast address.
    pub multicast: bool,
    /// The destination, written out.
    pub written: Vec<u8>,
}

/// How the two sides differ.
#[derive(Debug, Clone, Copy, PartialEq, Eq, Structural)]
pub enum ChecksumDivergence {
    /// In the checksum.
    Checksum,
    /// In the derived address.
    Address,
    /// In the MAC.
    Mac,
    /// In the multicast MAC.
    MulticastMac,
    /// In whether the destination is multicast.
    Multicast,
    /// The reference wrote past the forty bytes an address may take.
    Overrun,
    /// In how the destination is written.
    Written,
}

/// Whether both sides take the same checksum.
pub fn check_checksum(
    reference: &ChecksumSeen,
    node: &ChecksumSeen,
) -> (r: Result<(), ChecksumDivergence>)
    ensures
        r == if reference.checksum == node.checksum {
            Ok::<(), ChecksumDivergence>(())
        } else {
            Err(ChecksumDivergence::Checksum)
        },
{
    if reference.checksum != node.checksum {
        return Err(ChecksumDivergence::Checksum);
    }
    Ok(())
}

/// Both sides derive the same addresses.
pub open spec fn derived_alike(reference: ChecksumSeen, node: ChecksumSeen) -> bool {
    &&& reference.address@ == node.address@
    &&& reference.mac@ == node.mac@
    &&& reference.multicast_mac@ == node.multicast_mac@
    &&& reference.multicast == node.multicast
    &&& reference.written@ == node.written@
}

/// The first thing the derived addresses differ in.
pub open spec fn derivation_verdict(
    reference: ChecksumSeen,
    node: ChecksumSeen,
    within_bounds: bool,
) -> Result<(), ChecksumDivergence> {
    if reference.address@ != node.address@ {
        Err(ChecksumDivergence::Address)
    } else if reference.mac@ != node.mac@ {
        Err(ChecksumDivergence::Mac)
    } else if reference.multicast_mac@ != node.multicast_mac@ {
        Err(ChecksumDivergence::MulticastMac)
    } else if reference.multicast != node.multicast {
        Err(ChecksumDivergence::Multicast)
    } else if !within_bounds {
        Err(ChecksumDivergence::Overrun)
    } else if reference.written@ != node.written@ {
        Err(ChecksumDivergence::Written)
    } else {
        Ok(())
    }
}

/// Whether both sides derive the same addresses, and the reference kept to its
/// buffer while writing one out.
pub fn check_addr_derivation(
    reference: &ChecksumSeen,
    node: &ChecksumSeen,
    within_bounds: bool,
) -> (r: Result<(), ChecksumDivergence>)
    ensures
        r is Ok <==> derived_alike(*reference, *node) && within_bounds,
        r == derivation_verdict(*reference, *node, within_bounds),
{
    if first_difference(&reference.address, &node.address).is_some() {
        return Err(ChecksumDivergence::Address);
    }
    if first_difference(&reference.mac, &node.mac).is_some() {
        return Err(ChecksumDivergence::Mac);
    }
    if first_difference(&reference.multicast_mac, &node.multicast_mac).is_some() {
        return Err(ChecksumDivergence::MulticastMac);
    }
    if reference.multicast != node.multicast {
        return Err(ChecksumDivergence::Multicast);
    }
    if !within_bounds {
        return Err(ChecksumDivergence::Overrun);
    }
    if first_difference(reference.written.as_slice(), node.written.as_slice()).is_some() {
        return Err(ChecksumDivergence::Written);
    }
    Ok(())
}

/// Whether both sides compute the same.
pub fn check(
    reference: &ChecksumSeen,
    node: &ChecksumSeen,
    within_bounds: bool,
) -> (r: Result<(), ChecksumDivergence>)
    ensures
        r is Ok <==> {
            &&& reference.checksum == node.checksum
            &&& derived_alike(*reference, *node)
            &&& within_bounds
        },
        r == if reference.checksum != node.checksum {
            Err(ChecksumDivergence::Checksum)
        } else {
            derivation_verdict(*reference, *node, within_bounds)
        },
{
    match check_checksum(reference, node) {
        Ok(()) => check_addr_derivation(reference, node, within_bounds),
        Err(divergence) => Err(divergence),
    }
}

/// An input is drawn field by field from the bytes that were written for it.
pub proof fn law_a_written_input_is_drawn_back(
    input: ChecksumInput,
    src: Seq<u8>,
    dst: Seq<u8>,
    next_header: u8,
    prefix: u32,
    node_id: u64,
    more: Seq<u8>,
)
    requires
        src.len() == 16,
        dst.len() == 16,
        input.drawn_from(
            src + (dst + (seq![next_header] + (seq![0u8] + (le_bytes(prefix as nat, 4) + (le_bytes(
                node_id as nat,
                8,
            ) + more))))),
        ),
    ensures
        input.src@ =~= src,
        input.dst@ =~= dst,
        input.next_header == next_header,
        input.data@.len() == 0,
        input.prefix == prefix,
        input.node_id == node_id,
{
    broadcast use crate::bytes::lemma_le_bytes_len;

    let s5 = le_bytes(node_id as nat, 8) + more;
    let s4 = le_bytes(prefix as nat, 4) + s5;
    let s3 = seq![0u8] + s4;
    let s2 = seq![next_header] + s3;
    let s1 = dst + s2;
    let s = src + s1;
    law_le_bytes_fit(prefix as nat);
    law_le_bytes_fit(node_id as nat);
    law_what_is_written_first_is_drawn_first(src, s1, 0);
    law_what_is_written_first_is_drawn_first(dst, s2, 0);
    law_what_is_written_first_is_drawn_first(seq![next_header], s3, 0);
    law_a_vector_is_drawn_byte_by_byte(0, s4);
    law_what_is_written_first_is_drawn_first(le_bytes(prefix as nat, 4), s5, 0);
    law_what_is_written_first_is_drawn_first(le_bytes(node_id as nat, 8), more, 0);
    assert(rest(s, 32) =~= rest(rest(s, 16), 16));
    assert(rest(s, 33) =~= rest(rest(s, 32), 1));
}

/// Everything derived from the addresses has to agree, and stay within bounds;
/// what is faulted is really different, and nothing before it is.
pub proof fn law_a_derivation_is_faulted_for_what_is_wrong(
    reference: ChecksumSeen,
    node: ChecksumSeen,
    within_bounds: bool,
)
    ensures
        match derivation_verdict(reference, node, within_bounds) {
            Ok(()) => derived_alike(reference, node) && within_bounds,
            Err(ChecksumDivergence::Address) => reference.address@ != node.address@,
            Err(ChecksumDivergence::Mac) => reference.mac@ != node.mac@,
            Err(ChecksumDivergence::MulticastMac) => reference.multicast_mac@
                != node.multicast_mac@,
            Err(ChecksumDivergence::Multicast) => reference.multicast != node.multicast,
            Err(ChecksumDivergence::Overrun) => !within_bounds,
            Err(ChecksumDivergence::Written) => reference.written@ != node.written@,
            _ => false,
        },
        derived_alike(reference, node) <==> reference.address@ == node.address@ && reference.mac@
            == node.mac@ && reference.multicast_mac@ == node.multicast_mac@ && reference.multicast
            == node.multicast && reference.written@ == node.written@,
        derived_alike(reference, node) && within_bounds ==> derivation_verdict(
            reference,
            node,
            within_bounds,
        ) is Ok,
{
}

} // verus!
