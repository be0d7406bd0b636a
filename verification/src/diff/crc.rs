//! Comparing the checksums over stored data.
use vstd::prelude::*;

use crate::bytes::{le, le_bytes};
use crate::fuzz::{
    draw_u16, draw_u32, draw_vec, drawn_vec, padded, past_vec, rest, source, unread,
};
use arbitrary::Unstructured;

verus! {

/// A seed and the bytes to fold in, with a place to split them.
#[derive(Debug)]
pub struct CrcInput {
    /// Where the folding starts from.
    pub seed: u32,
    /// Where to split the bytes; any number is usable.
    pub split: u16,
    /// The bytes.
    pub data: Vec<u8>,
}

impl CrcInput {
    /// Every field is drawn from `s`.
    pub open spec fn drawn_from(&self, s: Seq<u8>) -> bool {
        &&& self.seed == le(padded(s, 4))
        &&& self.split == le(padded(rest(s, 4), 2))
        &&& self.data@ == drawn_vec(rest(s, 6))
    }

    /// Draw an input.
    pub fn arbitrary(u: &mut Unstructured<'_>) -> (r: Self)
        ensures
            r.drawn_from(unread(old(u))),
            unread(final(u)) == past_vec(rest(unread(old(u)), 6)),
    {
        let ghost s = unread(u);
        let seed = draw_u32(u);
        let split = draw_u16(u);
        assert(unread(u) =~= rest(s, 6));
        let data = draw_vec(u);
        CrcInput { seed, split, data }
    }

    /// The input a seed file holds.
    pub fn from_seed(seed: &[u8]) -> (r: Self)
        ensures
            r.drawn_from(seed@),
    {
        let mut u = source(seed);
        Self::arbitrary(&mut u)
    }

    /// The bytes, split in two.
    #[must_use]
    pub fn halves(&self) -> (r: (&[u8], &[u8]))
        requires
            self.data@.len() < usize::MAX,
        ensures
            r.0@ + r.1@ == self.data@,
            r.0@.len() == self.split as nat % (self.data@.len() + 1),
    {
        let at: usize = self.split as usize % (self.data.len() + 1);
        let head = vstd::slice::slice_subrange(self.data.as_slice(), 0, at);
        let tail = vstd::slice::slice_subrange(self.data.as_slice(), at, self.data.len());
        assert(head@ + tail@ =~= self.data@);
        (head, tail)
    }
}

/// What one side computes for an input.
#[derive(Debug, Clone, Copy, PartialEq, Eq, Structural)]
pub struct CrcSeen {
    /// The sixteen-bit checksum, from the seed's low half.
    pub crc16: u16,
    /// The thirty-two-bit checksum of the bytes.
    pub crc32: u32,
    /// The same, carried on from the seed.
    pub updated: u32,
    /// The checksum of the second half, carried on from that of the first.
    pub chained: u32,
}

/// How the checksums differ.
#[derive(Debug, Clone, Copy, PartialEq, Eq, Structural)]
pub enum CrcDivergence {
    /// In sixteen bits.
    Crc16,
    /// In thirty-two bits.
    Crc32,
    /// Carried on from the seed.
    Updated,
    /// Carried on from the first half.
    Chained,
    /// Carrying on from the first half is not the same as taking the bytes at
    /// once.
    Split,
}

/// Whether both sides compute the same, and whether splitting the bytes makes
/// no difference, which catches a final complement that is taken twice.
pub fn check(reference: &CrcSeen, node: &CrcSeen) -> (r: Result<(), CrcDivergence>)
    ensures
        r is Ok <==> *reference == *node && reference.chained == reference.crc32,
        r == if reference.crc16 != node.crc16 {
            Err(CrcDivergence::Crc16)
        } else if reference.crc32 != node.crc32 {
            Err(CrcDivergence::Crc32)
        } else if reference.updated != node.updated {
            Err(CrcDivergence::Updated)
        } else if reference.chained != node.chained {
            Err(CrcDivergence::Chained)
        } else if reference.chained != reference.crc32 {
            Err(CrcDivergence::Split)
        } else {
            Ok::<(), CrcDivergence>(())
        },
{
    if reference.crc16 != node.crc16 {
        return Err(CrcDivergence::Crc16);
    }
    if reference.crc32 != node.crc32 {
        return Err(CrcDivergence::Crc32);
    }
    if reference.updated != node.updated {
        return Err(CrcDivergence::Updated);
    }
    if reference.chained != node.chained {
        return Err(CrcDivergence::Chained);
    }
    if reference.chained != reference.crc32 {
        return Err(CrcDivergence::Split);
    }
    Ok(())
}

/// An input is drawn field by field from the bytes that were written for it.
pub proof fn law_a_written_input_is_drawn_back(
    input: CrcInput,
    seed: u32,
    split: u16,
    first: u8,
    more: Seq<u8>,
)
    requires
        input.drawn_from(
            le_bytes(seed as nat, 4) + (le_bytes(split as nat, 2) + (seq![1u8, first] + (seq![0u8]
                + more))),
        ),
    ensures
        input.seed == seed,
        input.split == split,
        input.data@ =~= seq![first],
{
    broadcast use crate::bytes::lemma_le_bytes_len;

    let s3 = seq![0u8] + more;
    let s2 = seq![1u8, first] + s3;
    let s1 = le_bytes(split as nat, 2) + s2;
    let s = le_bytes(seed as nat, 4) + s1;
    crate::bytes::law_le_bytes_fit(seed as nat);
    crate::bytes::law_le_bytes_fit(split as nat);
    crate::fuzz::law_what_is_written_first_is_drawn_first(le_bytes(seed as nat, 4), s1, 0);
    crate::fuzz::law_what_is_written_first_is_drawn_first(le_bytes(split as nat, 2), s2, 0);
    crate::fuzz::law_a_vector_is_drawn_byte_by_byte(first, s3);
    crate::fuzz::law_a_vector_is_drawn_byte_by_byte(first, more);
    assert(rest(s, 6) =~= rest(rest(s, 4), 2));
}

} // verus!
