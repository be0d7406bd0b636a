//! Ethernet and IPv6 framing: where each field lies, and the headers of a
//! frame a node sends.
use vstd::prelude::*;

use crate::bytes::{be_bytes, lemma_be_bytes_len, overlay, put, push_be};

verus! {

/// Largest frame a node will build or accept: a 1500-byte Ethernet payload
/// plus the 14-byte header.
pub const MTU: usize = 1514;

/// The hop limit of everything a node transmits.
pub const HOP_LIMIT: u8 = 64;

/// The IPv6 prefix of a node's link-local address.
pub const LINK_LOCAL_PREFIX: u32 = 0xFE80_0000;

/// Where the Ethernet destination starts.
pub const ETHERNET_DESTINATION_OFFSET: usize = 0;

/// Where the Ethernet source starts.
pub const ETHERNET_SRC_OFFSET: usize = 6;

/// Where the EtherType starts.
pub const ETHERNET_TYPE_OFFSET: usize = 12;

/// The EtherType of IPv6.
pub const ETHERNET_TYPE_IPV6: u16 = 0x86DD;

/// Where the IPv6 version, traffic class and flow label start.
pub const IPV6_VERSION_OFFSET: usize = 14;

/// Where the IPv6 payload length starts.
pub const IPV6_PAYLOAD_LENGTH_OFFSET: usize = 18;

/// Where the IPv6 next-header byte is.
pub const IPV6_NEXT_HEADER_OFFSET: usize = 20;

/// Where the IPv6 hop limit is.
pub const IPV6_HOP_LIMIT_OFFSET: usize = 21;

/// Where the IPv6 source address starts.
pub const IPV6_SOURCE_ADDRESS_OFFSET: usize = 22;

/// The byte of the source address that carries the ingress port in its high
/// nibble and the egress port in its low one.
pub const IPV6_INGRESS_EGRESS_PORTS_OFFSET: usize = 24;

/// The first of the two source-address bytes older nodes kept ports in.
pub const LEGACY_PORT_CLEAR_OFFSET: usize = 26;

/// Where the IPv6 destination address starts.
pub const IPV6_DESTINATION_ADDRESS_OFFSET: usize = 38;

/// The shortest frame that holds both addresses, and where the BCMP header
/// starts.
pub const MIN_FRAME_WITH_ADDRESSES: usize = 54;

/// Length of the BCMP header.
pub const BCMP_HEADER_LEN: usize = 13;

/// Where the checksum starts inside the BCMP header.
pub const CHECKSUM_FIELD_OFFSET: usize = 2;

/// Where a BCMP body starts.
pub const BCMP_BODY_OFFSET: usize = 67;

/// An IPv6 address.
pub type Address = [u8; 16];

/// `FF02::1`, which every node on a link hears and none relays.
pub const LINK_LOCAL_MULTICAST: Address = [
    0xFF, 0x02, 0, 0, 0, 0, 0, 0, 0, 0, 0, 0, 0, 0, 0, 1,
];

/// `FF03::1`, which is flooded through the whole network.
pub const GLOBAL_MULTICAST: Address = [
    0xFF, 0x03, 0, 0, 0, 0, 0, 0, 0, 0, 0, 0, 0, 0, 0, 1,
];

/// The addresses that go into a frame's headers.
#[derive(Debug, Clone, Copy, PartialEq, Eq)]
pub struct Addresses {
    /// The sender's link-local address.
    pub source: Address,
    /// The sender's MAC.
    pub source_mac: [u8; 6],
    /// Where the frame goes.
    pub destination: Address,
    /// The multicast MAC of the destination, if it is a multicast address.
    pub multicast_mac: Option<[u8; 6]>,
    /// The IPv6 next-header byte.
    pub next_header: u8,
}

impl Addresses {
    /// The Ethernet destination: the multicast MAC, or the broadcast one for
    /// an address that is not multicast, there being no neighbour discovery to
    /// resolve it with.
    pub open spec fn destination_mac(&self) -> Seq<u8> {
        match self.multicast_mac {
            Some(mac) => mac@,
            None => seq![0xFFu8, 0xFFu8, 0xFFu8, 0xFFu8, 0xFFu8, 0xFFu8],
        }
    }

    /// The 54 header bytes of a frame, all but the payload length.
    pub open spec fn headers(&self, length: Seq<u8>) -> Seq<u8> {
        self.destination_mac() + self.source_mac@ + seq![0x86u8, 0xDDu8] + seq![
            0x60u8,
            0u8,
            0u8,
            0u8,
        ] + length + seq![self.next_header, HOP_LIMIT] + self.source@ + self.destination@
    }
}

/// Write the Ethernet and IPv6 headers of a frame that carries `payload_len`
/// bytes.
///
/// Nothing, if the frame is too short for the headers; and nothing, with every
/// field but the payload length written, if that length does not fit its
/// sixteen bits.
pub fn write_frame_headers(
    frame: &mut [u8],
    addresses: &Addresses,
    payload_len: usize,
) -> (r: Option<()>)
    ensures
        r is Some <==> old(frame)@.len() >= MIN_FRAME_WITH_ADDRESSES && payload_len <= u16::MAX,
        old(frame)@.len() < MIN_FRAME_WITH_ADDRESSES ==> final(frame)@ == old(frame)@,
        old(frame)@.len() >= MIN_FRAME_WITH_ADDRESSES ==> final(frame)@ == overlay(
            old(frame)@,
            0,
            addresses.headers(
                if payload_len <= u16::MAX {
                    be_bytes(payload_len as nat, 2)
                } else {
                    old(frame)@.subrange(
                        IPV6_PAYLOAD_LENGTH_OFFSET as int,
                        IPV6_PAYLOAD_LENGTH_OFFSET + 2,
                    )
                },
            ),
        ),
{
    broadcast use lemma_be_bytes_len;

    if frame.len() < MIN_FRAME_WITH_ADDRESSES {
        return None;
    }
    match addresses.multicast_mac {
        Some(mac) => put(frame, ETHERNET_DESTINATION_OFFSET, &mac),
        None => put(
            frame,
            ETHERNET_DESTINATION_OFFSET,
            &[0xFFu8, 0xFFu8, 0xFFu8, 0xFFu8, 0xFFu8, 0xFFu8],
        ),
    }
    put(frame, ETHERNET_SRC_OFFSET, &addresses.source_mac);
    put(frame, ETHERNET_TYPE_OFFSET, &[0x86u8, 0xDDu8]);
    put(frame, IPV6_VERSION_OFFSET, &[0x60u8, 0u8, 0u8, 0u8]);
    put(frame, IPV6_NEXT_HEADER_OFFSET, &[addresses.next_header, HOP_LIMIT]);
    put(frame, IPV6_SOURCE_ADDRESS_OFFSET, &addresses.source);
    put(frame, IPV6_DESTINATION_ADDRESS_OFFSET, &addresses.destination);
    if payload_len > 0xFFFF {
        assert(frame@ =~= overlay(
            old(frame)@,
            0,
            addresses.headers(
                old(frame)@.subrange(
                    IPV6_PAYLOAD_LENGTH_OFFSET as int,
                    IPV6_PAYLOAD_LENGTH_OFFSET + 2,
                ),
            ),
        ));
        return None;
    }
    let mut length: Vec<u8> = Vec::new();
    push_be(&mut length, payload_len as u64, 2);
    assert(length@ =~= be_bytes(payload_len as nat, 2));
    put(frame, IPV6_PAYLOAD_LENGTH_OFFSET, length.as_slice());
    assert(frame@ =~= overlay(
        old(frame)@,
        0,
        addresses.headers(be_bytes(payload_len as nat, 2)),
    ));
    Some(())
}

/// Every field of a frame's headers is where the standards have it: the two
/// MACs, the IPv6 type, the version, the payload length, the next header and
/// the hop limit, and the two addresses. A frame to an address that is not
/// multicast is broadcast.
pub proof fn law_every_header_field_is_in_its_place(addresses: Addresses, length: Seq<u8>)
    requires
        length.len() == 2,
    ensures
        ({
            let headers = addresses.headers(length);
            &&& headers.len() == 54
            &&& headers.subrange(6, 12) =~= addresses.source_mac@
            &&& headers.subrange(12, 14) =~= seq![0x86u8, 0xDDu8]
            &&& headers.subrange(14, 18) =~= seq![0x60u8, 0u8, 0u8, 0u8]
            &&& headers.subrange(18, 20) =~= length
            &&& headers[20] == addresses.next_header
            &&& headers[21] == 64
            &&& headers.subrange(22, 38) =~= addresses.source@
            &&& headers.subrange(38, 54) =~= addresses.destination@
            &&& addresses.multicast_mac matches Some(mac) ==> headers.subrange(0, 6) =~= mac@
            &&& addresses.multicast_mac is None ==> forall|i: int|
                0 <= i < 6 ==> #[trigger] headers[i] == 0xFF
        }),
{
}

} // verus!
