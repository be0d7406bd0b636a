//! Comparing the routing policy: what both sides decide about a received
//! frame, how they change it, and what they ask of the routing callback.
use vstd::prelude::*;

use crate::bytes::{
    differ_first_at, first_difference, le, le_bytes, lemma_le_bytes_len, overlay, put,
};
use crate::diff::frames::zero;
use crate::frame::{
    Address, ETHERNET_TYPE_OFFSET, GLOBAL_MULTICAST, IPV6_DESTINATION_ADDRESS_OFFSET,
    LINK_LOCAL_MULTICAST, MIN_FRAME_WITH_ADDRESSES,
};
use crate::fuzz::{
    draw_bool, draw_option, draw_u16, draw_u8, draw_vec, drawn_vec, odd, padded, past_vec, rest,
    source, unread,
};
use arbitrary::Unstructured;

verus! {

/// What a routing callback does, and what it saw.
///
/// Both sides are given a callback that follows the same script, so it is not
/// merely some callback but the same decision.
#[derive(Debug, Clone, Copy, PartialEq, Eq, Structural)]
pub struct Script {
    /// The ports it sends the frame on to.
    pub egress: u16,
    /// Whether it has the frame submitted locally.
    pub submit: bool,
    /// What it writes into byte 2 of the source address, if anything.
    pub src_write: Option<u8>,
    /// How often it was asked.
    pub calls: u32,
    /// The ingress port it was last asked about.
    pub last_port: u8,
}

/// What a callback answers.
#[derive(Debug, Clone, Copy, PartialEq, Eq, Structural)]
pub struct Routed {
    /// The ports to send the frame on to.
    pub egress: u16,
    /// What to write into byte 2 of the source address, if anything.
    pub src_write: Option<u8>,
    /// Whether to submit the frame locally.
    pub submit: bool,
}

impl Script {
    /// Answer the policy about a frame that arrived on `port`.
    pub fn route(&mut self, port: u8) -> (r: Routed)
        requires
            old(self).calls < u32::MAX,
        ensures
            r.egress == old(self).egress,
            r.src_write == old(self).src_write,
            r.submit == old(self).submit,
            *final(self) == (Script {
                calls: (old(self).calls + 1) as u32,
                last_port: port,
                ..*old(self)
            }),
    {
        self.calls = self.calls + 1;
        self.last_port = port;
        Routed { egress: self.egress, src_write: self.src_write, submit: self.submit }
    }
}

impl Default for Script {
    /// Submit everything and send nothing on.
    fn default() -> (r: Self)
        ensures
            r == (Script { egress: 0, submit: true, src_write: None, calls: 0, last_port: 0 }),
    {
        Script { egress: 0, submit: true, src_write: None, calls: 0, last_port: 0 }
    }
}

/// A frame, the port masks and what the callback does with it.
#[derive(Debug)]
pub struct L2PolicyInput {
    /// The frame. Both sides change it.
    pub frame: Vec<u8>,
    /// Mask of the port it arrived on.
    pub ingress_port_mask: u16,
    /// Mask of every port of the device.
    pub all_ports_mask: u16,
    /// Whether there is a callback at all.
    pub with_callback: bool,
    /// The ports the callback sends the frame on to.
    pub cb_egress: u16,
    /// Whether the callback has the frame submitted locally.
    pub cb_submit: bool,
    /// What the callback writes into byte 2 of the source address, if
    /// anything.
    pub cb_src_write: Option<u8>,
}

/// `frame`, at least long enough for its addresses.
pub open spec fn frame_shaped(frame: Seq<u8>) -> Seq<u8> {
    if frame.len() < MIN_FRAME_WITH_ADDRESSES {
        frame + zero((MIN_FRAME_WITH_ADDRESSES - frame.len()) as nat)
    } else {
        frame
    }
}

/// How many bytes past the shape the address takes.
pub open spec fn aim_bytes(shape: u8) -> nat {
    if shape % 8 == 3 {
        1
    } else {
        0
    }
}

/// The address a frame of this shape is aimed at, if at any. `last` is the
/// address's last byte where the shape leaves that open.
pub open spec fn aim(shape: u8, last: u8) -> Option<Seq<u8>> {
    if shape % 8 == 1 {
        Some(GLOBAL_MULTICAST@)
    } else if shape % 8 == 2 {
        Some(LINK_LOCAL_MULTICAST@)
    } else if shape % 8 == 3 {
        Some(LINK_LOCAL_MULTICAST@.update(15, last))
    } else {
        None
    }
}

/// A drawn frame, given its shape. Random bytes almost never carry the IPv6
/// EtherType, so three frames in four are given it, and some of those are
/// aimed at an address the policy cares about.
pub open spec fn shaped(frame: Seq<u8>, shape: u8, last: u8) -> Seq<u8> {
    if shape % 4 == 0 {
        frame
    } else {
        let typed = overlay(
            frame_shaped(frame),
            ETHERNET_TYPE_OFFSET as int,
            seq![0x86u8, 0xDDu8],
        );
        match aim(shape, last) {
            Some(address) => overlay(typed, IPV6_DESTINATION_ADDRESS_OFFSET as int, address),
            None => typed,
        }
    }
}

/// The address a frame of this shape is aimed at, if at any.
fn draw_aim(u: &mut Unstructured<'_>, shape: u8) -> (r: Option<Address>)
    ensures
        ({
            let s = unread(old(u));
            &&& unread(final(u)) == rest(s, aim_bytes(shape))
            &&& r is Some <==> aim(shape, padded(s, 1)[0]) is Some
            &&& r matches Some(address) ==> aim(shape, padded(s, 1)[0]) == Some(address@)
        }),
{
    let ghost s = unread(u);
    match shape % 8 {
        1 => {
            assert(rest(s, 0) =~= s);
            Some(GLOBAL_MULTICAST)
        },
        2 => {
            assert(rest(s, 0) =~= s);
            Some(LINK_LOCAL_MULTICAST)
        },
        3 => {
            let mut address: Address = LINK_LOCAL_MULTICAST;
            address[15] = draw_u8(u);
            Some(address)
        },
        _ => {
            assert(rest(s, 0) =~= s);
            None
        },
    }
}

impl L2PolicyInput {
    /// What is left of `s` once the frame has been drawn from it.
    pub open spec fn past_frame(s: Seq<u8>) -> Seq<u8> {
        let shape = padded(past_vec(s), 1)[0];
        rest(
            rest(past_vec(s), 1),
            if shape % 4 == 0 {
                0
            } else {
                aim_bytes(shape)
            },
        )
    }

    /// Every field is drawn from `s`.
    pub open spec fn drawn_from(&self, s: Seq<u8>) -> bool {
        let shape = padded(past_vec(s), 1)[0];
        let t = Self::past_frame(s);
        &&& self.frame@ == shaped(drawn_vec(s), shape, padded(rest(past_vec(s), 1), 1)[0])
        &&& self.ingress_port_mask == le(padded(t, 2))
        &&& self.all_ports_mask == le(padded(rest(t, 2), 2))
        &&& self.with_callback == odd(rest(t, 4))
        &&& self.cb_egress == le(padded(rest(t, 5), 2))
        &&& self.cb_submit == odd(rest(t, 7))
        &&& self.cb_src_write == if odd(rest(t, 8)) {
            Some(padded(rest(t, 9), 1)[0])
        } else {
            None
        }
    }

    /// What drawing an input leaves of `s`.
    pub open spec fn past(s: Seq<u8>) -> Seq<u8> {
        let t = Self::past_frame(s);
        if odd(rest(t, 8)) {
            rest(t, 10)
        } else {
            rest(t, 9)
        }
    }

    /// Draw an input.
    pub fn arbitrary(u: &mut Unstructured<'_>) -> (r: Self)
        ensures
            r.drawn_from(unread(old(u))),
            unread(final(u)) == Self::past(unread(old(u))),
    {
        let ghost s = unread(u);
        let mut frame = draw_vec(u);
        let shape = draw_u8(u);
        if shape % 4 != 0 {
            while frame.len() < MIN_FRAME_WITH_ADDRESSES
                invariant
                    drawn_vec(s).len() <= frame@.len(),
                    drawn_vec(s).len() >= MIN_FRAME_WITH_ADDRESSES ==> frame@ == drawn_vec(s),
                    drawn_vec(s).len() < MIN_FRAME_WITH_ADDRESSES ==> frame@.len()
                        <= MIN_FRAME_WITH_ADDRESSES,
                    frame@ =~= drawn_vec(s) + zero((frame@.len() - drawn_vec(s).len()) as nat),
                decreases MIN_FRAME_WITH_ADDRESSES - frame@.len(),
            {
                frame.push(0);
            }
            assert(frame@ =~= frame_shaped(drawn_vec(s)));
            put(frame.as_mut_slice(), ETHERNET_TYPE_OFFSET, &[0x86u8, 0xDDu8]);
            match draw_aim(u, shape) {
                Some(address) => put(
                    frame.as_mut_slice(),
                    IPV6_DESTINATION_ADDRESS_OFFSET,
                    &address,
                ),
                None => {},
            }
        }
        assert(unread(u) =~= Self::past_frame(s));
        let ghost t = unread(u);
        let ingress_port_mask = draw_u16(u);
        assert(unread(u) =~= rest(t, 2));
        let all_ports_mask = draw_u16(u);
        assert(unread(u) =~= rest(t, 4));
        let with_callback = draw_bool(u);
        assert(unread(u) =~= rest(t, 5));
        let cb_egress = draw_u16(u);
        assert(unread(u) =~= rest(t, 7));
        let cb_submit = draw_bool(u);
        assert(unread(u) =~= rest(t, 8));
        assert(rest(rest(t, 8), 1) =~= rest(t, 9));
        let cb_src_write = draw_option(u);
        assert(rest(rest(t, 9), 1) =~= rest(t, 10));
        L2PolicyInput {
            frame,
            ingress_port_mask,
            all_ports_mask,
            with_callback,
            cb_egress,
            cb_submit,
            cb_src_write,
        }
    }

    /// The input a seed file holds.
    pub fn from_seed(seed: &[u8]) -> (r: Self)
        ensures
            r.drawn_from(seed@),
    {
        let mut u = source(seed);
        Self::arbitrary(&mut u)
    }

    /// The script both callbacks follow.
    #[must_use]
    pub fn script(&self) -> (r: Script)
        ensures
            r == (Script {
                egress: self.cb_egress,
                submit: self.cb_submit,
                src_write: self.cb_src_write,
                calls: 0,
                last_port: 0,
            }),
    {
        Script {
            egress: self.cb_egress,
            submit: self.cb_submit,
            src_write: self.cb_src_write,
            calls: 0,
            last_port: 0,
        }
    }
}

/// What one side did with an input.
#[derive(Debug)]
pub struct PolicySeen {
    /// The callback, afterwards.
    pub script: Script,
    /// Whether the frame is submitted locally.
    pub should_submit: bool,
    /// The ports it is sent on to.
    pub egress_mask: u16,
    /// The port it arrived on.
    pub ingress_port_num: u8,
    /// The frame, as the decision left it.
    pub frame: Vec<u8>,
    /// The frame, once it is prepared for being sent on.
    pub forwarded: Vec<u8>,
}

/// How the two decisions differ.
#[derive(Debug, Clone, Copy, PartialEq, Eq, Structural)]
pub enum PolicyDivergence {
    /// The callback was asked a different number of times.
    Calls,
    /// The callback was asked about a different port.
    LastPort,
    /// Only one side submits the frame.
    ShouldSubmit,
    /// The frame is sent on to different ports.
    EgressMask,
    /// It arrived on different ports.
    IngressPort,
    /// The frames differ.
    Frame {
        /// The first byte that does.
        at: usize,
    },
    /// The frames that are sent on differ.
    Forwarded {
        /// The first byte that does.
        at: usize,
    },
}

/// The first thing the two policies differ in.
pub open spec fn policies_part(
    reference: PolicySeen,
    node: PolicySeen,
    divergence: PolicyDivergence,
) -> bool {
    if reference.script.calls != node.script.calls {
        divergence is Calls
    } else if reference.script.last_port != node.script.last_port {
        divergence is LastPort
    } else if reference.should_submit != node.should_submit {
        divergence is ShouldSubmit
    } else if reference.egress_mask != node.egress_mask {
        divergence is EgressMask
    } else if reference.ingress_port_num != node.ingress_port_num {
        divergence is IngressPort
    } else if reference.frame@ != node.frame@ {
        divergence matches PolicyDivergence::Frame { at } && differ_first_at(
            reference.frame@,
            node.frame@,
            at as int,
        )
    } else {
        divergence matches PolicyDivergence::Forwarded { at } && differ_first_at(
            reference.forwarded@,
            node.forwarded@,
            at as int,
        )
    }
}

/// Whether both sides decided alike, asked the callback alike, and left the
/// same bytes behind.
pub fn check(reference: &PolicySeen, node: &PolicySeen) -> (r: Result<(), PolicyDivergence>)
    ensures
        r is Ok <==> {
            &&& reference.script.calls == node.script.calls
            &&& reference.script.last_port == node.script.last_port
            &&& reference.should_submit == node.should_submit
            &&& reference.egress_mask == node.egress_mask
            &&& reference.ingress_port_num == node.ingress_port_num
            &&& reference.frame@ == node.frame@
            &&& reference.forwarded@ == node.forwarded@
        },
        r matches Err(divergence) ==> policies_part(*reference, *node, divergence),
{
    if reference.script.calls != node.script.calls {
        return Err(PolicyDivergence::Calls);
    }
    if reference.script.last_port != node.script.last_port {
        return Err(PolicyDivergence::LastPort);
    }
    if reference.should_submit != node.should_submit {
        return Err(PolicyDivergence::ShouldSubmit);
    }
    if reference.egress_mask != node.egress_mask {
        return Err(PolicyDivergence::EgressMask);
    }
    if reference.ingress_port_num != node.ingress_port_num {
        return Err(PolicyDivergence::IngressPort);
    }
    match first_difference(reference.frame.as_slice(), node.frame.as_slice()) {
        Some(at) => return Err(PolicyDivergence::Frame { at }),
        None => {},
    }
    match first_difference(reference.forwarded.as_slice(), node.forwarded.as_slice()) {
        Some(at) => Err(PolicyDivergence::Forwarded { at }),
        None => Ok(()),
    }
}

/// A frame is put into shape only where its shape asks for it: it is then long
/// enough for its addresses, is of the IPv6 type, and goes where it is aimed,
/// if it is aimed anywhere. Everything else about it stays.
pub proof fn law_a_frame_is_shaped_only_where_it_is_asked(
    frame: Seq<u8>,
    shape: u8,
    last: u8,
    i: int,
)
    ensures
        ({
            let out = shaped(frame, shape, last);
            &&& shape % 4 == 0 ==> out == frame
            &&& shape % 4 != 0 ==> {
                &&& out.len() == if frame.len() < 54 { 54nat } else { frame.len() }
                &&& out[12] == 0x86 && out[13] == 0xDD
                &&& shape % 8 == 1 ==> out.subrange(38, 54) =~= GLOBAL_MULTICAST@
                &&& shape % 8 == 2 ==> out.subrange(38, 54) =~= LINK_LOCAL_MULTICAST@
                &&& shape % 8 == 3 ==> out.subrange(38, 53) =~= LINK_LOCAL_MULTICAST@.take(15)
                    && out[53] == last
                &&& 0 <= i < frame.len() && i != 12 && i != 13 && !(38 <= i < 54) ==> out[i]
                    == frame[i]
                &&& shape % 8 >= 5 && 38 <= i < 54 && i < frame.len() ==> out[i] == frame[i]
                &&& frame.len() <= i < 54 && i != 12 && i != 13 && (i < 38 || shape % 8 >= 5)
                    ==> out[i] == 0
            }
        }),
        aim_bytes(shape) == if shape % 8 == 3 { 1nat } else { 0nat },
        aim(shape, last) is Some <==> shape % 8 == 1 || shape % 8 == 2 || shape % 8 == 3,
{
    assert(GLOBAL_MULTICAST@.len() == 16 && LINK_LOCAL_MULTICAST@.len() == 16);
}

/// Behind the frame an input is drawn field by field from the bytes that were
/// written for it.
pub proof fn law_a_written_input_is_drawn_back(
    input: L2PolicyInput,
    ingress: u16,
    all: u16,
    with_callback: u8,
    egress: u16,
    submit: u8,
    write: u8,
    more: Seq<u8>,
)
    requires
        input.drawn_from(
            seq![0u8, 0u8] + (le_bytes(ingress as nat, 2) + (le_bytes(all as nat, 2) + (seq![
                with_callback,
            ] + (le_bytes(egress as nat, 2) + (seq![submit] + (seq![1u8] + (seq![write] + more))))))),
        ),
    ensures
        input.frame@.len() == 0,
        input.ingress_port_mask == ingress,
        input.all_ports_mask == all,
        input.with_callback == (with_callback % 2 == 1),
        input.cb_egress == egress,
        input.cb_submit == (submit % 2 == 1),
        input.cb_src_write == Some(write),
        L2PolicyInput::past(
            seq![0u8, 0u8] + (le_bytes(ingress as nat, 2) + (le_bytes(all as nat, 2) + (seq![
                with_callback,
            ] + (le_bytes(egress as nat, 2) + (seq![submit] + (seq![1u8] + (seq![write] + more))))))),
        ) =~= more,
{
    broadcast use lemma_le_bytes_len;

    let t7 = seq![write] + more;
    let t6 = seq![1u8] + t7;
    let t5 = seq![submit] + t6;
    let t4 = le_bytes(egress as nat, 2) + t5;
    let t3 = seq![with_callback] + t4;
    let t2 = le_bytes(all as nat, 2) + t3;
    let t = le_bytes(ingress as nat, 2) + t2;
    let s = seq![0u8, 0u8] + t;
    crate::bytes::law_le_bytes_fit(ingress as nat);
    crate::bytes::law_le_bytes_fit(all as nat);
    crate::bytes::law_le_bytes_fit(egress as nat);
    assert(s =~= seq![0u8] + (seq![0u8] + t));
    crate::fuzz::law_a_vector_is_drawn_byte_by_byte(0, seq![0u8] + t);
    crate::fuzz::law_what_is_written_first_is_drawn_first(seq![0u8], t, 0);
    assert(rest(t, 0) =~= t);
    crate::fuzz::law_what_is_written_first_is_drawn_first(le_bytes(ingress as nat, 2), t2, 0);
    crate::fuzz::law_what_is_written_first_is_drawn_first(le_bytes(all as nat, 2), t3, 0);
    crate::fuzz::law_what_is_written_first_is_drawn_first(seq![with_callback], t4, 0);
    crate::fuzz::law_what_is_written_first_is_drawn_first(le_bytes(egress as nat, 2), t5, 0);
    crate::fuzz::law_what_is_written_first_is_drawn_first(seq![submit], t6, 0);
    crate::fuzz::law_what_is_written_first_is_drawn_first(seq![1u8], t7, 0);
    crate::fuzz::law_what_is_written_first_is_drawn_first(seq![write], more, 0);
    assert(L2PolicyInput::past_frame(s) =~= t);
    assert(rest(t, 4) =~= rest(rest(t, 2), 2));
    assert(rest(t, 5) =~= rest(rest(t, 4), 1));
    assert(rest(t, 7) =~= rest(rest(t, 5), 2));
    assert(rest(t, 8) =~= rest(rest(t, 7), 1));
    assert(rest(t, 9) =~= rest(rest(t, 8), 1));
    assert(rest(t, 10) =~= rest(rest(t, 9), 1));
}

/// What is faulted is really different between the two sides, and everything
/// that is compared before it is the same.
pub proof fn law_a_policy_is_faulted_for_what_is_wrong(
    reference: PolicySeen,
    node: PolicySeen,
    divergence: PolicyDivergence,
)
    requires
        policies_part(reference, node, divergence),
    ensures
        match divergence {
            PolicyDivergence::Calls => reference.script.calls != node.script.calls,
            PolicyDivergence::LastPort => reference.script.last_port != node.script.last_port,
            PolicyDivergence::ShouldSubmit => reference.should_submit != node.should_submit,
            PolicyDivergence::EgressMask => reference.egress_mask != node.egress_mask,
            PolicyDivergence::IngressPort => reference.ingress_port_num != node.ingress_port_num,
            PolicyDivergence::Frame { .. } => reference.frame@ != node.frame@
                && reference.egress_mask == node.egress_mask,
            PolicyDivergence::Forwarded { .. } => reference.forwarded@ != node.forwarded@
                && reference.frame@ == node.frame@,
        },
{
    match divergence {
        PolicyDivergence::Frame { at } => {
            crate::bytes::law_there_is_one_first_difference(
                reference.frame@,
                node.frame@,
                at as int,
                at as int,
            );
        },
        PolicyDivergence::Forwarded { at } => {
            crate::bytes::law_there_is_one_first_difference(
                reference.forwarded@,
                node.forwarded@,
                at as int,
                at as int,
            );
        },
        _ => {},
    }
}

/// Drawing a frame takes its shape, and one byte more exactly if the shape
/// leaves the last byte of the address open.
pub proof fn law_a_shape_takes_one_more_byte_only_if_it_needs_it(shape: u8, t: Seq<u8>)
    ensures
        L2PolicyInput::past_frame(seq![0u8] + (seq![shape] + t)) == if shape % 8 == 3 {
            rest(t, 1)
        } else {
            t
        },
{
    let s = seq![0u8] + (seq![shape] + t);
    crate::fuzz::law_a_vector_is_drawn_byte_by_byte(0, seq![shape] + t);
    crate::fuzz::law_what_is_written_first_is_drawn_first(seq![shape], t, 0);
    assert(rest(t, 0) =~= t);
}

} // verus!
