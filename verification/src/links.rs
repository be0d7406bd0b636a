//! Port numbers and port masks. Ports are 1-based; bit 0 of a mask is port 1.
use vstd::prelude::*;

verus! {

/// Whether `mask` holds `port`. No mask holds a port outside 1..=16.
pub open spec fn in_mask(mask: u16, port: u8) -> bool {
    1 <= port <= 16 && mask & (1u16 << ((port - 1) as u16)) != 0
}

/// The mask holding just `port`, or nothing for a port no device can have.
#[must_use]
pub fn port_mask(port: u8) -> (r: u16)
    ensures
        r == if 1 <= port <= 16 { 1u16 << ((port - 1) as u16) } else { 0u16 },
        forall|p: u8| #[trigger] in_mask(r, p) <==> p == port && 1 <= p <= 16,
{
    proof {
        let a: u16 = (port - 1) as u16;
        let mask: u16 = if 1 <= port <= 16 { 1u16 << a } else { 0u16 };
        assert forall|p: u8| #[trigger] in_mask(mask, p) <==> p == port && 1 <= p <= 16 by {
            let b: u16 = (p - 1) as u16;
            assert(0u16 & (1u16 << b) == 0) by (bit_vector);
            if 1 <= port <= 16 && 1 <= p <= 16 {
                assert((1u16 << a) & (1u16 << b) != 0 <==> a == b) by (bit_vector)
                    requires
                        a < 16,
                        b < 16,
                ;
            }
        }
    }
    if port == 0 || port > 16 {
        0
    } else {
        1u16 << ((port - 1) as u16)
    }
}

/// `mask` with `port` added or taken out. A port no device can have changes
/// nothing.
#[must_use]
pub fn with_link(mask: u16, port: u8, up: bool) -> (r: u16)
    ensures
        forall|p: u8|
            #[trigger] in_mask(r, p) == if p == port && 1 <= p <= 16 {
                up
            } else {
                in_mask(mask, p)
            },
        !(1 <= port <= 16) ==> r == mask,
{
    if port == 0 || port > 16 {
        return mask;
    }
    let bit: u16 = (port - 1) as u16;
    let r: u16 = if up {
        mask | (1u16 << bit)
    } else {
        mask & !(1u16 << bit)
    };
    proof {
        assert forall|p: u8|
            #[trigger] in_mask(r, p) == if p == port && 1 <= p <= 16 {
                up
            } else {
                in_mask(mask, p)
            } by {
            if 1 <= p <= 16 {
                let q: u16 = (p - 1) as u16;
                assert((mask | (1u16 << bit)) & (1u16 << q) != 0 <==> (q == bit || mask & (1u16
                    << q) != 0)) by (bit_vector)
                    requires
                        bit < 16,
                        q < 16,
                ;
                assert((mask & !(1u16 << bit)) & (1u16 << q) != 0 <==> (q != bit && mask & (1u16
                    << q) != 0)) by (bit_vector)
                    requires
                        bit < 16,
                        q < 16,
                ;
            }
        }
    }
    r
}

/// Whether `mask` holds `port`.
#[must_use]
pub fn is_in_mask(mask: u16, port: u8) -> (r: bool)
    ensures
        r == in_mask(mask, port),
{
    if port == 0 || port > 16 {
        return false;
    }
    mask & (1u16 << ((port - 1) as u16)) != 0
}

/// The mask of ports 1 to `count`. A mask has no bit for a port past the
/// sixteenth.
pub open spec fn port_range(count: u8) -> u16 {
    if count < 16 {
        ((1u16 << (count as u16)) - 1) as u16
    } else {
        0xFFFF
    }
}

/// [`port_range`] holds ports 1 to `count` and no others.
pub proof fn lemma_port_range(count: u8)
    ensures
        forall|p: u8|
            #[trigger] in_mask(port_range(count), p) <==> 1 <= p <= 16 && p <= count,
{
    let n: u16 = count as u16;
    assert forall|p: u8| #[trigger] in_mask(port_range(count), p) <==> 1 <= p <= 16 && p <= count by {
        if 1 <= p <= 16 {
            let q: u16 = (p - 1) as u16;
            if count < 16 {
                assert(((1u16 << n) - 1) as u16 & (1u16 << q) != 0 <==> q < n) by (bit_vector)
                    requires
                        n < 16,
                        q < 16,
                ;
            } else {
                assert(0xFFFFu16 & (1u16 << q) != 0) by (bit_vector)
                    requires
                        q < 16,
                ;
            }
        }
    }
}

/// The mask of ports 1 to `count`.
#[must_use]
pub fn first_ports(count: u8) -> (r: u16)
    ensures
        r == port_range(count),
        forall|p: u8| #[trigger] in_mask(r, p) <==> 1 <= p <= 16 && p <= count,
{
    proof {
        lemma_port_range(count);
    }
    if count >= 16 {
        return 0xFFFF;
    }
    let n: u16 = count as u16;
    assert(1u16 << n >= 1) by (bit_vector)
        requires
            n < 16,
    ;
    (1u16 << n) - 1
}

/// The ports 1..=`count` that `mask` holds, in order.
pub open spec fn ports_in(mask: u16, count: nat) -> Seq<u8>
    decreases count,
{
    if count == 0 {
        Seq::empty()
    } else {
        let before = ports_in(mask, (count - 1) as nat);
        if in_mask(mask, count as u8) {
            before.push(count as u8)
        } else {
            before
        }
    }
}

/// The ports of [`ports_in`] are the ones asked for: each is in the mask, none
/// is past the count, none is missing, and they ascend.
pub proof fn lemma_ports_in(mask: u16, count: nat)
    requires
        count <= 255,
    ensures
        forall|i: int|
            0 <= i < ports_in(mask, count).len() ==> in_mask(
                mask,
                #[trigger] ports_in(mask, count)[i],
            ) && 1 <= ports_in(mask, count)[i] <= count,
        forall|p: u8|
            1 <= p <= count && #[trigger] in_mask(mask, p) ==> ports_in(mask, count).contains(p),
        forall|i: int, j: int|
            0 <= i < j < ports_in(mask, count).len() ==> #[trigger] ports_in(mask, count)[i]
                < #[trigger] ports_in(mask, count)[j],
    decreases count,
{
    if count > 0 {
        let before = ports_in(mask, (count - 1) as nat);
        lemma_ports_in(mask, (count - 1) as nat);
        assert forall|p: u8|
            1 <= p <= count && #[trigger] in_mask(mask, p) implies ports_in(
            mask,
            count,
        ).contains(p) by {
            if p == count {
                assert(ports_in(mask, count)[before.len() as int] == p);
            } else {
                assert(before.contains(p));
                let i = choose|i: int| 0 <= i < before.len() && before[i] == p;
                assert(ports_in(mask, count)[i] == p);
            }
        }
    }
}

/// A port is in a mask exactly if its bit is set, bit 0 being port 1; there is
/// no bit for any other port.
pub proof fn law_bit_zero_is_port_one(mask: u16, port: u8)
    ensures
        1 <= port <= 16 ==> (in_mask(mask, port) <==> (mask >> ((port - 1) as u16)) & 1 == 1),
        port == 0 || port > 16 ==> !in_mask(mask, port),
{
    if 1 <= port <= 16 {
        let bit = (port - 1) as u16;
        assert(mask & (1u16 << bit) != 0 <==> (mask >> bit) & 1 == 1) by (bit_vector)
            requires
                bit < 16,
        ;
    }
}

} // verus!
