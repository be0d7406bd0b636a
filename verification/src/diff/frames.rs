//! The frames a comparison puts to both sides.
use vstd::prelude::*;

use crate::bytes::{be_bytes, lemma_be_bytes_len, push_be, put, zeros};
use crate::frame::{
    Address, ETHERNET_TYPE_OFFSET, IPV6_DESTINATION_ADDRESS_OFFSET, IPV6_NEXT_HEADER_OFFSET,
    IPV6_PAYLOAD_LENGTH_OFFSET, IPV6_SOURCE_ADDRESS_OFFSET, MIN_FRAME_WITH_ADDRESSES,
};

verus! {

/// `n` zero bytes.
pub open spec fn zero(n: nat) -> Seq<u8> {
    Seq::new(n, |i: int| 0u8)
}

/// A frame that carries `payload_len` zero bytes: the EtherType, the payload
/// length, the next header and the addresses filled in, everything else zero.
pub open spec fn blank(
    source: Seq<u8>,
    destination: Seq<u8>,
    next_header: u8,
    payload_len: nat,
) -> Seq<u8> {
    zero(12) + seq![0x86u8, 0xDDu8] + zero(4) + be_bytes(payload_len, 2) + seq![next_header, 0u8]
        + source + destination + zero(payload_len)
}

/// A frame with the IPv6 header filled in and room for a payload.
#[must_use]
pub fn blank_frame(
    source: &Address,
    destination: &Address,
    next_header: u8,
    payload_len: usize,
) -> (r: Vec<u8>)
    requires
        payload_len <= 0xFFFF,
    ensures
        r@ == blank(source@, destination@, next_header, payload_len as nat),
        r@.len() == MIN_FRAME_WITH_ADDRESSES + payload_len,
{
    broadcast use lemma_be_bytes_len;

    let mut frame = zeros(MIN_FRAME_WITH_ADDRESSES + payload_len);
    let mut length: Vec<u8> = Vec::new();
    push_be(&mut length, payload_len as u64, 2);
    assert(length@ =~= be_bytes(payload_len as nat, 2));
    put(frame.as_mut_slice(), ETHERNET_TYPE_OFFSET, &[0x86u8, 0xDDu8]);
    put(frame.as_mut_slice(), IPV6_PAYLOAD_LENGTH_OFFSET, length.as_slice());
    frame.set(IPV6_NEXT_HEADER_OFFSET, next_header);
    put(frame.as_mut_slice(), IPV6_SOURCE_ADDRESS_OFFSET, source);
    put(frame.as_mut_slice(), IPV6_DESTINATION_ADDRESS_OFFSET, destination);
    assert(frame@ =~= blank(source@, destination@, next_header, payload_len as nat));
    frame
}

/// A frame to be given a BCMP header and checksum: the blank frame, the type
/// its header names, and the body that goes behind the header.
#[derive(Debug)]
pub struct Unsealed {
    /// The frame, with room for header and body.
    pub frame: Vec<u8>,
    /// The type in its header. The number there is zero.
    pub message_type: crate::message::MessageType,
    /// Its body.
    pub body: Vec<u8>,
}

/// A blank frame has its type, its length, its next header and its addresses
/// where they belong, and zeros everywhere else, room for its payload at the
/// end.
pub proof fn law_a_blank_frame_is_blank_but_for_its_headers(
    source: Seq<u8>,
    destination: Seq<u8>,
    next_header: u8,
    payload_len: nat,
    i: int,
)
    requires
        source.len() == 16,
        destination.len() == 16,
        payload_len <= 0xFFFF,
    ensures
        ({
            let frame = blank(source, destination, next_header, payload_len);
            &&& frame.len() == 54 + payload_len
            &&& frame[12] == 0x86 && frame[13] == 0xDD
            &&& frame[18] == payload_len / 256 && frame[19] == payload_len % 256
            &&& frame[20] == next_header
            &&& frame.subrange(22, 38) =~= source
            &&& frame.subrange(38, 54) =~= destination
            &&& 0 <= i < 12 || 14 <= i < 18 || i == 21 || 54 <= i < frame.len() ==> frame[i] == 0
        }),
{
    broadcast use lemma_be_bytes_len;

    reveal_with_fuel(be_bytes, 3);
}

} // verus!
