//! Inputs restricted to where the reference has defined behaviour.
use vstd::prelude::*;

verus! {

/// An input that can be forced into the domain of a comparison.
///
/// The reference reads out of bounds, or writes through a stale pointer,
/// outside its documented range. Comparing against that is meaningless, so
/// such inputs are constrained rather than having the comparison overlook the
/// mismatch.
pub trait Domain {
    /// Whether the reference is defined on this input.
    open spec fn in_domain(&self) -> bool {
        true
    }

    /// Force this input into the domain.
    fn clamp_to_domain(&mut self)
        ensures
            final(self).in_domain(),
    ;
}

/// A port number folded into 1..=`ports`, a number already there unmoved.
pub open spec fn folded_port(port: u8, ports: u8) -> u8 {
    ((port.wrapping_sub(1) as int) % (ports as int) + 1) as u8
}

/// A port number folded into 1..=`ports`.
#[must_use]
pub fn fold_port(port: u8, ports: u8) -> (r: u8)
    requires
        0 < ports < 255,
    ensures
        r == folded_port(port, ports),
        1 <= r <= ports,
        1 <= port <= ports ==> r == port,
{
    proof {
        if 1 <= port <= ports {
            vstd::arithmetic::div_mod::lemma_small_mod((port - 1) as nat, ports as nat);
        }
    }
    port.wrapping_sub(1) % ports + 1
}

/// A folded port is one the device has. Counting up goes through all of them in
/// turn, from port 1 on; a port the device has stays where it is.
pub proof fn law_a_port_is_folded_into_its_range(port: u8, ports: u8)
    requires
        0 < ports < 255,
    ensures
        1 <= folded_port(port, ports) <= ports,
        1 <= port <= ports ==> folded_port(port, ports) == port,
        port >= 1 ==> (port - folded_port(port, ports)) % (ports as int) == 0,
{
    let n = ports as int;
    let before = port.wrapping_sub(1) as int;
    assert(0 <= before % n < n);
    if 1 <= port {
        vstd::arithmetic::div_mod::lemma_fundamental_div_mod(before, n);
        assert(port - folded_port(port, ports) == n * (before / n));
        vstd::arithmetic::div_mod::lemma_mod_multiples_basic(before / n, n);
        assert((before / n) * n == n * (before / n)) by (nonlinear_arith);
        if port <= ports {
            vstd::arithmetic::div_mod::lemma_small_mod(before as nat, n as nat);
        }
    }
}

} // verus!
