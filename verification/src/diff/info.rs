//! Comparing what two nodes know about their neighbours' devices: what they
//! cache, what they report, and whom they ask.
//!
//! The reference keeps no length beside a cached string, so the strings here
//! hold no zero byte.
use vstd::prelude::*;

use crate::bytes::{copied, first_difference, law_le_bytes_fit, le, le_bytes};
use crate::diff::compare::{
    captures_view, contents, requests_part, same_requests, Captured, RequestDivergence,
};
use crate::diff::domain::{fold_port, folded_port, Domain};
use crate::diff::frames::{blank, blank_frame, Unsealed};
use crate::diff::ll::{LinkModel, Links};
use crate::diff::stack::NUM_PORTS;
use crate::frame::{Address, BCMP_HEADER_LEN, LINK_LOCAL_MULTICAST};
use crate::fuzz::{
    draw_bool, draw_in_range, draw_u32, draw_u64, draw_u8, in_range, is_empty,
    law_a_tag_is_one_byte, law_what_is_written_first_is_drawn_first, odd, padded, past_range, rest,
    source, unread,
};
use crate::message::{DeviceInfo, DeviceInfoReply, Heartbeat, InfoRequestKind, MessageType};
use arbitrary::Unstructured;

verus! {

/// The node ids a step may name.
///
/// The last shares its low 32 bits with the second, and those are all the
/// reference's request list remembers. Node id 0 never names a neighbour, so a
/// reply that claims it answers a request and is cached nowhere.
pub const NODE_IDS: [u64; 4] = [
    0,
    0x0000_0000_55AA_0011,
    0x0000_0000_55AA_0022,
    0xDEAD_BEEF_55AA_0011,
];

/// `0.1.0`
const VERSION_1: [u8; 5] = [0x30, 0x2e, 0x31, 0x2e, 0x30];

/// `1.2.3-rc1`
const VERSION_2: [u8; 9] = [0x31, 0x2e, 0x32, 0x2e, 0x33, 0x2d, 0x72, 0x63, 0x31];

/// `a-much-longer-version-string-than-usual`
const VERSION_4: [u8; 39] = [
    0x61, 0x2d, 0x6d, 0x75, 0x63, 0x68, 0x2d, 0x6c, 0x6f, 0x6e, 0x67, 0x65, 0x72, 0x2d, 0x76, 0x65,
    0x72, 0x73, 0x69, 0x6f, 0x6e, 0x2d, 0x73, 0x74, 0x72, 0x69, 0x6e, 0x67, 0x2d, 0x74, 0x68, 0x61,
    0x6e, 0x2d, 0x75, 0x73, 0x75, 0x61, 0x6c,
];

/// `bm_sbc`
const NAME_1: [u8; 6] = [0x62, 0x6d, 0x5f, 0x73, 0x62, 0x63];

/// `dev-kit`
const NAME_3: [u8; 7] = [0x64, 0x65, 0x76, 0x2d, 0x6b, 0x69, 0x74];

/// `n`
const NAME_4: [u8; 1] = [0x6e];

const EMPTY: [u8; 0] = [];

/// How many pairs of version string and device name a reply may carry. An
/// empty one matters: it leaves the string cached before in place.
pub const STRINGS: usize = 5;

/// Longest a single step may push the clock.
///
/// Every timer that is due fires as the clock advances, so an unbounded
/// advance would be an unbounded loop.
pub const MAX_ADVANCE_MS: u32 = 60_000;

/// Most steps a single input may carry.
pub const MAX_STEPS: usize = 24;

/// How many neighbours the node keeps, and so how many devices it describes.
pub const NEIGHBORS: usize = 4;

/// How many unanswered device-info requests the node remembers.
///
/// The reference's list is unbounded and never expires an entry, so reaching
/// the node's ceiling would be a difference in kind. A step adds at most one
/// entry, which leaves one to spare.
pub const REQUEST_CAPACITY: usize = 25;

/// Seconds a heartbeat announces the next one within.
pub const HEARTBEAT_PERIOD_S: u32 = 10;

/// The version string at `index`.
pub open spec fn version_at(index: u8) -> Seq<u8> {
    if index == 1 {
        seq![0x30u8, 0x2e, 0x31, 0x2e, 0x30]
    } else if index == 2 {
        seq![0x31u8, 0x2e, 0x32, 0x2e, 0x33, 0x2d, 0x72, 0x63, 0x31]
    } else if index == 4 {
        seq![
            0x61u8, 0x2d, 0x6d, 0x75, 0x63, 0x68, 0x2d, 0x6c, 0x6f, 0x6e, 0x67, 0x65, 0x72, 0x2d,
            0x76, 0x65, 0x72, 0x73, 0x69, 0x6f, 0x6e, 0x2d, 0x73, 0x74, 0x72, 0x69, 0x6e, 0x67,
            0x2d, 0x74, 0x68, 0x61, 0x6e, 0x2d, 0x75, 0x73, 0x75, 0x61, 0x6c
        ]
    } else {
        Seq::empty()
    }
}

/// The device name at `index`.
pub open spec fn name_at(index: u8) -> Seq<u8> {
    if index == 1 {
        seq![0x62u8, 0x6d, 0x5f, 0x73, 0x62, 0x63]
    } else if index == 3 {
        seq![0x64u8, 0x65, 0x76, 0x2d, 0x6b, 0x69, 0x74]
    } else if index == 4 {
        seq![0x6eu8]
    } else {
        Seq::empty()
    }
}

/// The version string at `index`.
#[must_use]
pub fn version(index: u8) -> (r: &'static [u8])
    ensures
        r@ == version_at(index),
{
    let version: &'static [u8] = match index {
        1 => &VERSION_1,
        2 => &VERSION_2,
        4 => &VERSION_4,
        _ => &EMPTY,
    };
    assert(version@ =~= version_at(index));
    version
}

/// The device name at `index`.
#[must_use]
pub fn name(index: u8) -> (r: &'static [u8])
    ensures
        r@ == name_at(index),
{
    let name: &'static [u8] = match index {
        1 => &NAME_1,
        3 => &NAME_3,
        4 => &NAME_4,
        _ => &EMPTY,
    };
    assert(name@ =~= name_at(index));
    name
}

/// No string holds a zero byte, so the reference's strings end where they
/// should.
pub proof fn law_no_string_holds_a_zero(index: u8, at: int)
    ensures
        0 <= at < version_at(index).len() ==> version_at(index)[at] != 0,
        0 <= at < name_at(index).len() ==> name_at(index)[at] != 0,
{
}

/// One thing that happens to a node.
#[allow(inconsistent_fields)]
#[derive(Debug, Clone, Copy, PartialEq, Eq, Structural)]
pub enum Step {
    /// A heartbeat arrives, which makes a neighbour exist and announces a
    /// restart.
    Heartbeat {
        /// The sender, by its place in [`NODE_IDS`].
        node: u8,
        /// Ingress port, 1..=[`NUM_PORTS`].
        port: u8,
        /// How long the sender claims to be up. Less than last time is a
        /// restart.
        uptime_us: u64,
    },
    /// A device-info reply arrives.
    Reply {
        /// Whose source address it has, by its place in [`NODE_IDS`].
        from: u8,
        /// Whose device the body describes, by its place in [`NODE_IDS`];
        /// everything downstream goes by this one.
        claims: u8,
        /// Ingress port, 1..=[`NUM_PORTS`].
        port: u8,
        /// Which strings it carries, below [`STRINGS`].
        strings: u8,
        /// Varies the fixed half, so that a second reply differs from the
        /// first.
        revision: u8,
    },
    /// The node asks someone to describe itself.
    Request {
        /// Whom, by its place in [`NODE_IDS`].
        node: u8,
        /// Whether the answer goes to the application rather than to the
        /// cache.
        report: bool,
    },
    /// Time passes.
    Advance {
        /// Milliseconds, at most [`MAX_ADVANCE_MS`].
        ms: u32,
    },
}

impl Step {
    /// Whether every part is in range.
    pub open spec fn in_domain(self) -> bool {
        match self {
            Step::Heartbeat { node, port, .. } => node < 4 && 1 <= port <= NUM_PORTS,
            Step::Reply { from, claims, port, strings, .. } => from < 4 && claims < 4 && 1 <= port
                <= NUM_PORTS && strings < STRINGS,
            Step::Request { node, .. } => node < 4,
            Step::Advance { ms } => ms <= MAX_ADVANCE_MS,
        }
    }

    /// The step with every part folded into range.
    pub open spec fn clamped(self) -> Step {
        match self {
            Step::Heartbeat { node, port, uptime_us } => Step::Heartbeat {
                node: node % 4,
                port: folded_port(port, NUM_PORTS),
                uptime_us,
            },
            Step::Reply { from, claims, port, strings, revision } => Step::Reply {
                from: from % 4,
                claims: claims % 4,
                port: folded_port(port, NUM_PORTS),
                strings: strings % 5,
                revision,
            },
            Step::Request { node, report } => Step::Request { node: node % 4, report },
            Step::Advance { ms } => Step::Advance { ms: (ms % 60_001) },
        }
    }

    /// Fold every part into range.
    #[must_use]
    pub fn clamp(self) -> (r: Step)
        ensures
            r == self.clamped(),
            r.in_domain(),
            self.in_domain() ==> r == self,
    {
        match self {
            Step::Heartbeat { node, port, uptime_us } => Step::Heartbeat {
                node: node % 4,
                port: fold_port(port, NUM_PORTS),
                uptime_us,
            },
            Step::Reply { from, claims, port, strings, revision } => Step::Reply {
                from: from % 4,
                claims: claims % 4,
                port: fold_port(port, NUM_PORTS),
                strings: strings % 5,
                revision,
            },
            Step::Request { node, report } => Step::Request { node: node % 4, report },
            Step::Advance { ms } => Step::Advance { ms: ms % (MAX_ADVANCE_MS + 1) },
        }
    }

    /// Whether this step can make a node ask for information.
    pub open spec fn asks(self) -> bool {
        self is Heartbeat || self is Request
    }
}

/// One step drawn from `s`, and what that leaves.
pub open spec fn drawn_step(s: Seq<u8>) -> (Step, Seq<u8>) {
    let tag = in_range(s, 0, 3);
    let s1 = past_range(s, 3);
    if tag == 0 {
        let s2 = rest(s1, 1);
        let s3 = rest(s2, 1);
        (
            Step::Heartbeat {
                node: padded(s1, 1)[0],
                port: padded(s2, 1)[0],
                uptime_us: le(padded(s3, 8)) as u64,
            }.clamped(),
            rest(s3, 8),
        )
    } else if tag == 1 {
        let s2 = rest(s1, 1);
        let s3 = rest(s2, 1);
        let s4 = rest(s3, 1);
        let s5 = rest(s4, 1);
        (
            Step::Reply {
                from: padded(s1, 1)[0],
                claims: padded(s2, 1)[0],
                port: padded(s3, 1)[0],
                strings: padded(s4, 1)[0],
                revision: padded(s5, 1)[0],
            }.clamped(),
            rest(s5, 1),
        )
    } else if tag == 2 {
        let s2 = rest(s1, 1);
        (Step::Request { node: padded(s1, 1)[0], report: odd(s2) }.clamped(), rest(s2, 1))
    } else {
        (Step::Advance { ms: le(padded(s1, 4)) as u32 }.clamped(), rest(s1, 4))
    }
}

/// Up to `n` steps drawn from `s`, as long as there are bytes.
pub open spec fn drawn_steps(s: Seq<u8>, n: nat) -> Seq<Step>
    decreases n,
{
    if s.len() == 0 || n == 0 {
        Seq::empty()
    } else {
        let (step, left) = drawn_step(s);
        seq![step] + drawn_steps(left, (n - 1) as nat)
    }
}

/// What drawing up to `n` steps leaves of `s`.
pub open spec fn past_steps(s: Seq<u8>, n: nat) -> Seq<u8>
    decreases n,
{
    if s.len() == 0 || n == 0 {
        s
    } else {
        past_steps(drawn_step(s).1, (n - 1) as nat)
    }
}

/// One step, drawn as [`drawn_step`] says.
pub fn arbitrary_step(u: &mut Unstructured<'_>) -> (r: Step)
    ensures
        (r, unread(final(u))) == drawn_step(unread(old(u))),
        r.in_domain(),
{
    let step = match draw_in_range(u, 0, 3) {
        0 => {
            let node = draw_u8(u);
            let port = draw_u8(u);
            let uptime_us = draw_u64(u);
            Step::Heartbeat { node, port, uptime_us }
        },
        1 => {
            let from = draw_u8(u);
            let claims = draw_u8(u);
            let port = draw_u8(u);
            let strings = draw_u8(u);
            let revision = draw_u8(u);
            Step::Reply { from, claims, port, strings, revision }
        },
        2 => {
            let node = draw_u8(u);
            let report = draw_bool(u);
            Step::Request { node, report }
        },
        _ => Step::Advance { ms: draw_u32(u) },
    };
    step.clamp()
}

/// A sequence of steps applied to both nodes.
#[derive(Debug)]
pub struct InfoInput {
    /// The steps, at most [`MAX_STEPS`].
    pub steps: Vec<Step>,
}

impl Domain for InfoInput {
    open spec fn in_domain(&self) -> bool {
        &&& self.steps@.len() <= MAX_STEPS
        &&& forall|i: int| 0 <= i < self.steps@.len() ==> (#[trigger] self.steps@[i]).in_domain()
    }

    fn clamp_to_domain(&mut self)
        ensures
            final(self).steps@.len() == crate::bytes::shorter(
                old(self).steps@.len(),
                MAX_STEPS as nat,
            ),
            forall|i: int|
                0 <= i < final(self).steps@.len() ==> #[trigger] final(self).steps@[i] == old(
                    self,
                ).steps@[i].clamped(),
    {
        self.steps.truncate(MAX_STEPS);
        let mut index: usize = 0;
        while index < self.steps.len()
            invariant
                index <= self.steps@.len() <= MAX_STEPS,
                self.steps@.len() == crate::bytes::shorter(
                    old(self).steps@.len(),
                    MAX_STEPS as nat,
                ),
                forall|i: int|
                    0 <= i < index ==> #[trigger] self.steps@[i] == old(self).steps@[i].clamped()
                        && self.steps@[i].in_domain(),
                forall|i: int|
                    index <= i < self.steps@.len() ==> #[trigger] self.steps@[i] == old(
                        self,
                    ).steps@[i],
            decreases self.steps@.len() - index,
        {
            let step = self.steps[index].clamp();
            self.steps.set(index, step);
            index = index + 1;
        }
    }
}

impl InfoInput {
    /// Draw a script.
    pub fn arbitrary(u: &mut Unstructured<'_>) -> (r: Self)
        ensures
            r.steps@ == drawn_steps(unread(old(u)), MAX_STEPS as nat),
            unread(final(u)) == past_steps(unread(old(u)), MAX_STEPS as nat),
            r.in_domain(),
    {
        let mut steps: Vec<Step> = Vec::new();
        let ghost all = drawn_steps(unread(u), MAX_STEPS as nat);
        while !is_empty(u) && steps.len() < MAX_STEPS
            invariant
                steps@.len() <= MAX_STEPS,
                forall|i: int| 0 <= i < steps@.len() ==> (#[trigger] steps@[i]).in_domain(),
                steps@ + drawn_steps(unread(u), (MAX_STEPS - steps@.len()) as nat) =~= all,
                past_steps(unread(u), (MAX_STEPS - steps@.len()) as nat) == past_steps(
                    unread(old(u)),
                    MAX_STEPS as nat,
                ),
            decreases MAX_STEPS - steps@.len(),
        {
            let ghost before = steps@;
            let ghost s = unread(u);
            steps.push(arbitrary_step(u));
            assert(steps@ + drawn_steps(unread(u), (MAX_STEPS - steps@.len()) as nat) =~= before
                + drawn_steps(s, (MAX_STEPS - before.len()) as nat));
        }
        InfoInput { steps }
    }

    /// The script a seed file holds.
    pub fn from_seed(seed: &[u8]) -> (r: Self)
        ensures
            r.steps@ == drawn_steps(seed@, MAX_STEPS as nat),
            r.in_domain(),
    {
        let mut u = source(seed);
        InfoInput::arbitrary(&mut u)
    }
}

/// The fixed half of what node `node_id` says about itself at `revision`.
/// Every field varies with it, so that copying only some of them shows.
pub open spec fn described(node_id: u64, revision: u8) -> DeviceInfo {
    DeviceInfo {
        node_id,
        vendor_id: (0xBE00 + revision) as u16,
        product_id: (0x0040 + revision) as u16,
        serial_num: [
            revision,
            revision,
            revision,
            revision,
            revision,
            revision,
            revision,
            revision,
            revision,
            revision,
            revision,
            revision,
            revision,
            revision,
            revision,
            revision,
        ],
        git_sha: (0x1234_0000 + revision) as u32,
        ver_major: revision,
        ver_minor: revision.wrapping_add(1),
        ver_rev: revision.wrapping_add(2),
        ver_hw: revision.wrapping_add(3),
    }
}

/// The fixed half of what node `node_id` says about itself at `revision`.
#[must_use]
pub fn device_info(node_id: u64, revision: u8) -> (r: DeviceInfo)
    ensures
        r == described(node_id, revision),
{
    let wide = revision as u16;
    let wider = revision as u32;
    DeviceInfo {
        node_id,
        vendor_id: 0xBE00 + wide,
        product_id: 0x0040 + wide,
        serial_num: [
            revision,
            revision,
            revision,
            revision,
            revision,
            revision,
            revision,
            revision,
            revision,
            revision,
            revision,
            revision,
            revision,
            revision,
            revision,
            revision,
        ],
        git_sha: 0x1234_0000 + wider,
        ver_major: revision,
        ver_minor: revision.wrapping_add(1),
        ver_rev: revision.wrapping_add(2),
        ver_hw: revision.wrapping_add(3),
    }
}

/// A frame from a peer to its neighbours, before its header and checksum are
/// written. `peer` is the peer's link-local address.
#[must_use]
pub fn peer_frame(
    peer: &Address,
    message_type: MessageType,
    body: Vec<u8>,
    next_header: u8,
) -> (r: Unsealed)
    requires
        body@.len() <= 0xFFFF - BCMP_HEADER_LEN,
    ensures
        r.frame@ == blank(
            peer@,
            LINK_LOCAL_MULTICAST@,
            next_header,
            BCMP_HEADER_LEN as nat + body@.len(),
        ),
        r.message_type == message_type,
        r.body@ == body@,
{
    let frame = blank_frame(
        peer,
        &LINK_LOCAL_MULTICAST,
        next_header,
        BCMP_HEADER_LEN + body.len(),
    );
    Unsealed { frame, message_type, body }
}

/// The heartbeat a step sends.
#[must_use]
pub fn heartbeat(uptime_us: u64) -> (r: Heartbeat)
    ensures
        r == (Heartbeat {
            time_since_boot_us: uptime_us,
            liveliness_lease_dur_s: HEARTBEAT_PERIOD_S,
        }),
{
    Heartbeat { time_since_boot_us: uptime_us, liveliness_lease_dur_s: HEARTBEAT_PERIOD_S }
}

/// The reply that describes `claims`.
#[must_use]
pub fn reply(claims: u64, strings: u8, revision: u8) -> (r: DeviceInfoReply<'static>)
    ensures
        r.info == described(claims, revision),
        r.version_string@ == version_at(strings % 5),
        r.device_name@ == name_at(strings % 5),
{
    DeviceInfoReply {
        info: device_info(claims, revision),
        version_string: version(strings % 5),
        device_name: name(strings % 5),
    }
}

/// What is known about one device, on either side.
///
/// A device nothing is known about reads as zeros and two empty strings, so
/// that it compares equal on both sides.
#[derive(Debug, PartialEq, Eq)]
pub struct Cached {
    /// The fixed half.
    pub info: DeviceInfo,
    /// The version string.
    pub version_string: Vec<u8>,
    /// The device name.
    pub device_name: Vec<u8>,
}

/// What is known about a device, as a value.
#[verifier::ext_equal]
pub struct CachedView {
    /// The fixed half.
    pub info: DeviceInfo,
    /// The version string.
    pub version_string: Seq<u8>,
    /// The device name.
    pub device_name: Seq<u8>,
}

/// A device description of nothing but zeros.
pub open spec fn nothing() -> DeviceInfo {
    DeviceInfo {
        node_id: 0,
        vendor_id: 0,
        product_id: 0,
        serial_num: [0, 0, 0, 0, 0, 0, 0, 0, 0, 0, 0, 0, 0, 0, 0, 0],
        git_sha: 0,
        ver_major: 0,
        ver_minor: 0,
        ver_rev: 0,
        ver_hw: 0,
    }
}

impl View for Cached {
    type V = CachedView;

    open spec fn view(&self) -> CachedView {
        CachedView {
            info: self.info,
            version_string: self.version_string@,
            device_name: self.device_name@,
        }
    }
}

impl CachedView {
    /// What is known about a device nothing is known about.
    pub open spec fn unknown() -> CachedView {
        CachedView {
            info: nothing(),
            version_string: Seq::empty(),
            device_name: Seq::empty(),
        }
    }
}

impl Default for Cached {
    fn default() -> (r: Self)
        ensures
            r@ == CachedView::unknown(),
    {
        Cached {
            info: DeviceInfo {
                node_id: 0,
                vendor_id: 0,
                product_id: 0,
                serial_num: [0, 0, 0, 0, 0, 0, 0, 0, 0, 0, 0, 0, 0, 0, 0, 0],
                git_sha: 0,
                ver_major: 0,
                ver_minor: 0,
                ver_rev: 0,
                ver_hw: 0,
            },
            version_string: Vec::new(),
            device_name: Vec::new(),
        }
    }
}

impl Cached {
    /// What a reply says.
    #[must_use]
    pub fn of(reply: &DeviceInfoReply<'_>) -> (r: Self)
        ensures
            r@ == (CachedView {
                info: reply.info,
                version_string: reply.version_string@,
                device_name: reply.device_name@,
            }),
    {
        Cached {
            info: reply.info,
            version_string: copied(reply.version_string),
            device_name: copied(reply.device_name),
        }
    }

    /// Whether both sides know the same.
    #[must_use]
    pub fn same(&self, other: &Cached) -> (r: bool)
        ensures
            r <==> self@ == other@,
    {
        self.info.same(&other.info) && first_difference(
            self.version_string.as_slice(),
            other.version_string.as_slice(),
        ).is_none() && first_difference(
            self.device_name.as_slice(),
            other.device_name.as_slice(),
        ).is_none()
    }
}

/// The device-info requests the reference has outstanding.
///
/// It is kept from what the reference itself transmitted: a request on the
/// wire is one entry on its list. An entry is the low 32 bits of the target,
/// and the list's links are modelled alongside, because answering the middle
/// of three requests and then the last leaves the reference's tail dangling.
#[derive(Debug)]
pub struct OracleRequests {
    keys: Vec<u32>,
    links: LinkModel,
}

/// The requests outstanding, as a value.
pub struct RequestsView {
    /// The low 32 bits of each target, in order.
    pub keys: Seq<u32>,
    /// How the list is linked.
    pub links: Links,
}

impl View for OracleRequests {
    type V = RequestsView;

    closed spec fn view(&self) -> RequestsView {
        RequestsView { keys: self.keys@, links: self.links@ }
    }
}

impl RequestsView {
    /// Every entry is a node of the list.
    pub open spec fn well_formed(self) -> bool {
        self.keys.len() == self.links.nodes.len() && self.links.well_formed()
    }

    /// `index` is the first entry with this key.
    pub open spec fn first(self, key: u32, index: int) -> bool {
        &&& 0 <= index < self.keys.len()
        &&& self.keys[index] == key
        &&& forall|i: int| 0 <= i < index ==> self.keys[i] != key
    }
}

impl Default for OracleRequests {
    fn default() -> (r: Self)
        ensures
            r@.keys == Seq::<u32>::empty(),
            r@.links == Links::empty(),
            r@.well_formed(),
    {
        OracleRequests { keys: Vec::new(), links: LinkModel::new() }
    }
}

impl OracleRequests {
    /// Whether an append would be undefined, so that no step may provoke a
    /// request until the list has emptied.
    #[must_use]
    pub fn add_is_undefined(&self) -> (r: bool)
        ensures
            r == self@.links.hazardous(),
    {
        self.links.add_is_undefined()
    }

    /// Whether a step has to be withheld from both nodes: it could make them
    /// ask, and the reference's list is in no state to be appended to. A reply
    /// only removes, which is always defined.
    #[must_use]
    pub fn declines(&self, step: &Step) -> (r: bool)
        ensures
            r == (step.asks() && self@.links.hazardous()),
    {
        let appends = match step {
            Step::Heartbeat { .. } => true,
            Step::Request { .. } => true,
            _ => false,
        };
        appends && self.add_is_undefined()
    }

    /// A request went out.
    pub fn added(&mut self, target_node_id: u64)
        requires
            old(self)@.well_formed(),
            !old(self)@.links.hazardous(),
            old(self)@.links.added < u64::MAX,
        ensures
            final(self)@.well_formed(),
            final(self)@.keys == old(self)@.keys.push(target_node_id as u32),
            final(self)@.links == old(self)@.links.grown(),
    {
        self.links.add();
        self.keys.push(target_node_id as u32);
    }

    /// A reply arrived: the first entry with its key leaves the list, if there
    /// is one.
    pub fn answered(&mut self, claimed_node_id: u64)
        requires
            old(self)@.well_formed(),
        ensures
            final(self)@.well_formed(),
            old(self)@.keys.contains(claimed_node_id as u32) ==> exists|index: int|
                {
                    &&& #[trigger] old(self)@.first(claimed_node_id as u32, index)
                    &&& final(self)@.keys == old(self)@.keys.remove(index)
                    &&& final(self)@.links == old(self)@.links.without(index)
                },
            !old(self)@.keys.contains(claimed_node_id as u32) ==> final(self)@ == old(self)@,
    {
        let key = claimed_node_id as u32;
        let mut index: usize = 0;
        while index < self.keys.len()
            invariant
                index <= self.keys@.len(),
                self@ == old(self)@,
                self@.well_formed(),
                key == claimed_node_id as u32,
                forall|i: int| 0 <= i < index ==> self.keys@[i] != key,
            decreases self.keys@.len() - index,
        {
            if self.keys[index] == key {
                assert(old(self)@.first(key, index as int));
                assert(old(self)@.keys[index as int] == key);
                let _ = self.keys.remove(index);
                self.links.remove(index);
                return;
            }
            index = index + 1;
        }
        assert(!old(self)@.keys.contains(key));
    }

    /// The key that has waited longest.
    #[must_use]
    pub fn oldest(&self) -> (r: Option<u32>)
        ensures
            r is None <==> self@.keys.len() == 0,
            r matches Some(key) ==> key == self@.keys[0],
    {
        if self.keys.len() == 0 {
            None
        } else {
            Some(self.keys[0])
        }
    }
}

/// The replies that answer everything still outstanding, as the node id each
/// claims, so that the reference's list is empty again when the next script
/// starts. Answering in order removes the head every time, which is defined
/// however the script left the list.
pub fn answer_everything_outstanding(requests: &mut OracleRequests) -> (r: Vec<u64>)
    requires
        old(requests)@.well_formed(),
    ensures
        r@ == old(requests)@.keys.map_values(|key: u32| key as u64),
        final(requests)@.keys.len() == 0,
        !final(requests)@.links.hazardous(),
        final(requests)@.well_formed(),
{
    let mut claims: Vec<u64> = Vec::new();
    let ghost all = requests@.keys;
    assert(all.skip(0) =~= all);
    loop
        invariant
            requests@.well_formed(),
            claims@.len() <= all.len(),
            requests@.keys == all.skip(claims@.len() as int),
            claims@ =~= all.take(claims@.len() as int).map_values(|key: u32| key as u64),
        ensures
            requests@.keys.len() == 0,
        decreases requests@.keys.len(),
    {
        match requests.oldest() {
            None => break,
            Some(key) => {
                let ghost keys = requests@.keys;
                let ghost done = claims@.len() as int;
                proof {
                    assert(keys[0] == key);
                    assert(keys.contains(key));
                    assert((key as u64) as u32 == key);
                }
                requests.answered(key as u64);
                proof {
                    assert(requests@.keys =~= keys.remove(0));
                    assert(keys.remove(0) =~= all.skip(done + 1));
                }
                claims.push(key as u64);
            },
        }
    }
    assert(all.take(claims@.len() as int) =~= all);
    claims
}

/// How two nodes differ in what they know.
#[derive(Debug, Clone, Copy, PartialEq, Eq, Structural)]
pub enum InfoDivergence {
    /// The two handed different descriptions to the application.
    Reported,
    /// The node's request list is full.
    RequestsFull,
    /// The node's cache is full.
    CacheFull,
    /// The two know different things about a neighbour.
    Known {
        /// Which neighbour.
        node_id: u64,
    },
    /// The node describes a device that is no neighbour of the reference.
    Stray {
        /// Which device.
        node_id: u64,
    },
}

/// Compare the requests a step provoked, and note the reference's.
///
/// `targets` is whom each copy the reference put on the wire names, `copies`
/// those copies, and `ours` the node's request as it would leave on each of
/// their ports, if it sent one.
pub fn check_requests(
    requests: &mut OracleRequests,
    targets: &[u64],
    copies: &[Captured],
    ours: Option<&[Captured]>,
) -> (r: Result<(), RequestDivergence>)
    requires
        old(requests)@.well_formed(),
        ours is Some && targets@.len() > 0 ==> {
            &&& !old(requests)@.links.hazardous()
            &&& old(requests)@.links.added < u64::MAX
        },
    ensures
        final(requests)@.well_formed(),
        r is Ok <==> match ours {
            Some(stamped) => {
                &&& targets@.len() == NUM_PORTS
                &&& targets@[0] == targets@[1]
                &&& captures_view(copies@) == captures_view(stamped@)
            },
            None => targets@.len() == 0,
        },
        r is Ok && ours is Some ==> {
            &&& final(requests)@.keys == old(requests)@.keys.push(targets@[0] as u32)
            &&& final(requests)@.links == old(requests)@.links.grown()
        },
        r is Err || ours is None ==> final(requests)@ == old(requests)@,
        r matches Err(divergence) ==> requests_part(
            targets@,
            copies@,
            contents(ours),
            NUM_PORTS as nat,
            divergence,
        ),
{
    match same_requests(targets, copies, ours, NUM_PORTS as usize) {
        Ok(Some(target)) => {
            requests.added(target);
            Ok(())
        },
        Ok(None) => Ok(()),
        Err(divergence) => Err(divergence),
    }
}

/// Several descriptions, as values.
pub open spec fn cached_view(cached: Seq<Cached>) -> Seq<CachedView> {
    cached.map_values(|c: Cached| c@)
}

/// Compare what both sides handed to the application, in order.
pub fn check_reported(reference: &[Cached], node: &[Cached]) -> (r: Result<(), InfoDivergence>)
    ensures
        r == if cached_view(reference@) == cached_view(node@) {
            Ok::<(), InfoDivergence>(())
        } else {
            Err(InfoDivergence::Reported)
        },
{
    if reference.len() != node.len() {
        assert(cached_view(reference@).len() != cached_view(node@).len());
        return Err(InfoDivergence::Reported);
    }
    let mut index: usize = 0;
    while index < reference.len()
        invariant
            index <= reference@.len(),
            reference@.len() == node@.len(),
            forall|i: int| 0 <= i < index ==> (#[trigger] reference@[i])@ == node@[i]@,
        decreases reference@.len() - index,
    {
        if !reference[index].same(&node[index]) {
            assert(cached_view(reference@)[index as int] != cached_view(node@)[index as int]);
            return Err(InfoDivergence::Reported);
        }
        index = index + 1;
    }
    assert(cached_view(reference@) =~= cached_view(node@));
    Ok(())
}

/// How full the node's bounded lists are.
#[derive(Debug, Clone, Copy, PartialEq, Eq, Structural)]
pub struct Room {
    /// Requests the node has outstanding.
    pub requests: usize,
    /// How many it can have.
    pub request_capacity: usize,
    /// Devices it describes.
    pub cached: usize,
    /// How many it can describe.
    pub cache_capacity: usize,
}

/// What the node knows about a neighbour: what it cached, or nothing.
pub open spec fn known(cached: Option<Cached>) -> CachedView {
    match cached {
        Some(c) => c@,
        None => CachedView::unknown(),
    }
}

/// Whether a device is a neighbour of the reference.
pub open spec fn is_neighbor(reference: Seq<(u64, Cached)>, node_id: u64) -> bool {
    exists|i: int| 0 <= i < reference.len() && (#[trigger] reference[i]).0 == node_id
}

/// The first `n` neighbours of the reference are known alike.
pub open spec fn known_alike(
    reference: Seq<(u64, Cached)>,
    ours: Seq<Option<Cached>>,
    n: int,
) -> bool {
    forall|i: int| 0 <= i < n ==> (#[trigger] reference[i]).1@ == known(ours[i])
}

/// The divergence over what is known: in the node's room before anything else,
/// then in the first neighbour that is known differently, then in the first
/// device that is no neighbour.
pub open spec fn caches_part(
    room: Room,
    reference: Seq<(u64, Cached)>,
    ours: Seq<Option<Cached>>,
    cached: Seq<u64>,
    divergence: InfoDivergence,
) -> bool {
    let room_left = room.requests < room.request_capacity && room.cached < room.cache_capacity;
    match divergence {
        InfoDivergence::RequestsFull => room.requests >= room.request_capacity,
        InfoDivergence::CacheFull => room.requests < room.request_capacity && room.cached
            >= room.cache_capacity,
        InfoDivergence::Known { node_id } => room_left && exists|i: int|
            #![trigger reference[i]]
            0 <= i < reference.len() && known_alike(reference, ours, i) && reference[i].1@
                != known(ours[i]) && reference[i].0 == node_id,
        InfoDivergence::Stray { node_id } => room_left && known_alike(
            reference,
            ours,
            reference.len() as int,
        ) && exists|i: int|
            #![trigger cached[i]]
            0 <= i < cached.len() && cached[i] == node_id && !is_neighbor(reference, node_id)
                && forall|j: int| 0 <= j < i ==> is_neighbor(reference, #[trigger] cached[j]),
        _ => false,
    }
}

/// Compare what each side knows about every neighbour of the reference, and
/// that the node describes no other device. `ours` is what the node has on
/// each of those neighbours, and `cached` the ids of every device it
/// describes.
pub fn compare_caches(
    room: Room,
    reference: &[(u64, Cached)],
    ours: &[Option<Cached>],
    cached: &[u64],
) -> (r: Result<(), InfoDivergence>)
    requires
        ours@.len() == reference@.len(),
    ensures
        r is Ok <==> {
            &&& room.requests < room.request_capacity
            &&& room.cached < room.cache_capacity
            &&& forall|i: int|
                0 <= i < reference@.len() ==> (#[trigger] reference@[i]).1@ == known(ours@[i])
            &&& forall|i: int|
                0 <= i < cached@.len() ==> is_neighbor(reference@, #[trigger] cached@[i])
        },
        r matches Err(divergence) ==> caches_part(
            room,
            reference@,
            ours@,
            cached@,
            divergence,
        ),
{
    if room.requests >= room.request_capacity {
        return Err(InfoDivergence::RequestsFull);
    }
    if room.cached >= room.cache_capacity {
        return Err(InfoDivergence::CacheFull);
    }
    let mut index: usize = 0;
    while index < reference.len()
        invariant
            index <= reference@.len(),
            ours@.len() == reference@.len(),
            room.requests < room.request_capacity,
            room.cached < room.cache_capacity,
            forall|i: int|
                0 <= i < index ==> (#[trigger] reference@[i]).1@ == known(ours@[i]),
        decreases reference@.len() - index,
    {
        let same = match &ours[index] {
            Some(c) => c.same(&reference[index].1),
            None => Cached::default().same(&reference[index].1),
        };
        if !same {
            assert(known_alike(reference@, ours@, index as int));
            assert(reference@[index as int].1@ != known(ours@[index as int]));
            return Err(InfoDivergence::Known { node_id: reference[index].0 });
        }
        index = index + 1;
    }
    assert(known_alike(reference@, ours@, reference@.len() as int));
    let mut at: usize = 0;
    while at < cached.len()
        invariant
            at <= cached@.len(),
            room.requests < room.request_capacity,
            room.cached < room.cache_capacity,
            known_alike(reference@, ours@, reference@.len() as int),
            forall|i: int| 0 <= i < at ==> is_neighbor(reference@, #[trigger] cached@[i]),
        decreases cached@.len() - at,
    {
        let node_id = cached[at];
        let mut found = false;
        let mut place: usize = 0;
        while place < reference.len()
            invariant
                place <= reference@.len(),
                found ==> is_neighbor(reference@, node_id),
                !found ==> forall|i: int|
                    0 <= i < place ==> (#[trigger] reference@[i]).0 != node_id,
            decreases reference@.len() - place,
        {
            if reference[place].0 == node_id {
                assert(is_neighbor(reference@, node_id));
                found = true;
            }
            place = place + 1;
        }
        if !found {
            assert(!is_neighbor(reference@, cached@[at as int]));
            return Err(InfoDivergence::Stray { node_id });
        }
        at = at + 1;
    }
    Ok(())
}

/// How a request step asks: to report, or to cache.
#[must_use]
pub fn kind_of(report: bool) -> (r: InfoRequestKind)
    ensures
        r == if report {
            InfoRequestKind::Report
        } else {
            InfoRequestKind::Cache
        },
{
    if report {
        InfoRequestKind::Report
    } else {
        InfoRequestKind::Cache
    }
}

/// Two ids with the same low 32 bits are one request to the reference: once one
/// of them has been asked, a reply that claims the other is taken for an
/// answer.
pub proof fn law_a_reply_answers_by_its_low_bits(keys: Seq<u32>, asked: u64, claimed: u64)
    requires
        asked as u32 == claimed as u32,
    ensures
        keys.push(asked as u32).contains(claimed as u32),
{
    assert(keys.push(asked as u32)[keys.len() as int] == claimed as u32);
}

/// A heartbeat that is written down is drawn back as it was, and nothing behind
/// it is touched.
pub proof fn law_a_written_heartbeat_is_drawn_back(
    node: u8,
    port: u8,
    uptime_us: u64,
    more: Seq<u8>,
)
    requires
        node < 4,
        1 <= port <= 2,
    ensures
        drawn_step(
            seq![0u8] + (seq![node] + (seq![port] + (le_bytes(uptime_us as nat, 8) + more))),
        ) == (Step::Heartbeat { node, port, uptime_us }, more),
{
    broadcast use crate::bytes::lemma_le_bytes_len;

    let f2 = le_bytes(uptime_us as nat, 8);
    let s2 = f2 + more;
    let f1 = seq![port];
    let s1 = f1 + s2;
    let f0 = seq![node];
    let s0 = f0 + s1;
    law_what_is_written_first_is_drawn_first(f2, more, 0);
    law_le_bytes_fit(uptime_us as nat);
    law_what_is_written_first_is_drawn_first(f1, s2, 0);
    law_what_is_written_first_is_drawn_first(f0, s1, 0);
    law_a_tag_is_one_byte(0u8, 4, s0);
}

/// A reply that is written down is drawn back as it was.
pub proof fn law_a_written_reply_is_drawn_back(
    from: u8,
    claims: u8,
    port: u8,
    strings: u8,
    revision: u8,
    more: Seq<u8>,
)
    requires
        from < 4,
        claims < 4,
        1 <= port <= 2,
        strings < 5,
    ensures
        drawn_step(
            seq![1u8] + (seq![from] + (seq![claims] + (seq![port] + (seq![strings] + (seq![revision] + more))))),
        ) == (Step::Reply { from, claims, port, strings, revision }, more),
{
    let f4 = seq![revision];
    let s4 = f4 + more;
    let f3 = seq![strings];
    let s3 = f3 + s4;
    let f2 = seq![port];
    let s2 = f2 + s3;
    let f1 = seq![claims];
    let s1 = f1 + s2;
    let f0 = seq![from];
    let s0 = f0 + s1;
    law_what_is_written_first_is_drawn_first(f4, more, 0);
    law_what_is_written_first_is_drawn_first(f3, s4, 0);
    law_what_is_written_first_is_drawn_first(f2, s3, 0);
    law_what_is_written_first_is_drawn_first(f1, s2, 0);
    law_what_is_written_first_is_drawn_first(f0, s1, 0);
    law_a_tag_is_one_byte(1u8, 4, s0);
}

/// A request that is written down is drawn back as it was.
pub proof fn law_a_written_request_is_drawn_back(
    node: u8,
    report: bool,
    more: Seq<u8>,
)
    requires
        node < 4,
    ensures
        drawn_step(
            seq![2u8] + (seq![node] + (seq![if report { 1u8 } else { 0u8 }] + more)),
        ) == (Step::Request { node, report }, more),
{
    let f1 = seq![if report { 1u8 } else { 0u8 }];
    let s1 = f1 + more;
    let f0 = seq![node];
    let s0 = f0 + s1;
    law_what_is_written_first_is_drawn_first(f1, more, 0);
    law_what_is_written_first_is_drawn_first(f0, s1, 0);
    law_a_tag_is_one_byte(2u8, 4, s0);
}

/// A wait that is written down is drawn back as it was.
pub proof fn law_a_written_wait_is_drawn_back(
    ms: u32,
    more: Seq<u8>,
)
    requires
        ms <= 60_000,
    ensures
        drawn_step(
            seq![3u8] + (le_bytes(ms as nat, 4) + more),
        ) == (Step::Advance { ms }, more),
{
    broadcast use crate::bytes::lemma_le_bytes_len;

    let f0 = le_bytes(ms as nat, 4);
    let s0 = f0 + more;
    law_what_is_written_first_is_drawn_first(f0, more, 0);
    law_le_bytes_fit(ms as nat);
    law_a_tag_is_one_byte(3u8, 4, s0);
}

/// A script is its steps one after the other, until the bytes or the steps run
/// out.
pub proof fn law_a_script_is_drawn_step_by_step(s: Seq<u8>, n: nat)
    ensures
        drawn_steps(s, 0) =~= Seq::empty(),
        drawn_steps(Seq::empty(), n) =~= Seq::empty(),
        s.len() > 0 ==> drawn_steps(s, n + 1).len() == 1 + drawn_steps(drawn_step(s).1, n).len()
            && drawn_steps(s, n + 1)[0] == drawn_step(s).0 && drawn_steps(s, n + 1).skip(1)
            =~= drawn_steps(drawn_step(s).1, n),
        drawn_steps(s, n).len() <= n,
        past_steps(s, 0) == s,
        s.len() > 0 ==> past_steps(s, n + 1) == past_steps(drawn_step(s).1, n),
    decreases n,
{
    if s.len() > 0 && n > 0 {
        law_a_script_is_drawn_step_by_step(drawn_step(s).1, (n - 1) as nat);
    }
}

/// Folding a step into the domain keeps what it is and what it says; what has a
/// range is kept up to whole turns of it. A heartbeat and a request can make a
/// node ask for a description, and nothing else can.
pub proof fn law_folding_keeps_the_step(step: Step)
    ensures
        step.clamped().in_domain(),
        step.in_domain() ==> step.clamped() == step,
        step.clamped().asks() == step.asks(),
        match (step, step.clamped()) {
            (
                Step::Heartbeat { node, port, uptime_us },
                Step::Heartbeat { node: n, port: p, uptime_us: u },
            ) => step.asks() && u == uptime_us && (node - n) % 4 == 0 && (port >= 1 ==> (port - p)
                % 2 == 0),
            (
                Step::Reply { from, claims, port, strings, revision },
                Step::Reply { from: f, claims: c, port: p, strings: s, revision: r },
            ) => !step.asks() && r == revision && (from - f) % 4 == 0 && (claims - c) % 4 == 0 && (
            port >= 1 ==> (port - p) % 2 == 0) && (strings - s) % 5 == 0,
            (Step::Request { node, report }, Step::Request { node: n, report: r }) => step.asks()
                && r == report && (node - n) % 4 == 0,
            (Step::Advance { ms }, Step::Advance { ms: m }) => !step.asks() && (ms - m) % 60_001
                == 0,
            _ => false,
        },
{
    crate::diff::domain::law_a_port_is_folded_into_its_range(
        match step {
            Step::Reply { port, .. } => port,
            Step::Heartbeat { port, .. } => port,
            _ => 0,
        },
        2,
    );
}

/// A description is the device's it was made for, and a new revision changes
/// everything else in it.
pub proof fn law_a_description_varies_with_its_revision(node_id: u64, a: u8, b: u8)
    ensures
        described(node_id, a).node_id == node_id,
        a != b ==> {
            &&& described(node_id, a).vendor_id != described(node_id, b).vendor_id
            &&& described(node_id, a).product_id != described(node_id, b).product_id
            &&& described(node_id, a).git_sha != described(node_id, b).git_sha
            &&& described(node_id, a).ver_major != described(node_id, b).ver_major
            &&& described(node_id, a).ver_minor != described(node_id, b).ver_minor
            &&& described(node_id, a).ver_rev != described(node_id, b).ver_rev
            &&& described(node_id, a).ver_hw != described(node_id, b).ver_hw
            &&& described(node_id, a).serial_num@ != described(node_id, b).serial_num@
        },
        forall|i: int| 0 <= i < 16 ==> #[trigger] described(node_id, a).serial_num@[i] == a,
        described(node_id, a).ver_minor == a.wrapping_add(1),
        described(node_id, a).ver_rev == a.wrapping_add(2),
        described(node_id, a).ver_hw == a.wrapping_add(3),
        described(node_id, a).vendor_id == 0xBE00 + a,
        described(node_id, a).product_id == 0x40 + a,
        described(node_id, a).git_sha == 0x1234_0000 + a,
{
    assert(described(node_id, a).serial_num@[0] == a);
    assert(described(node_id, b).serial_num@[0] == b);
}

/// Each choice of strings is its own: with neither, with both, with one or the
/// other alone, and with a long version beside a short name.
pub proof fn law_each_choice_of_strings_is_its_own(a: u8, b: u8)
    requires
        a < 5,
        b < 5,
    ensures
        version_at(a) == version_at(b) && name_at(a) == name_at(b) ==> a == b,
        version_at(0).len() == 0 && name_at(0).len() == 0,
        version_at(1).len() == 5 && name_at(1).len() == 6,
        version_at(2).len() == 9 && name_at(2).len() == 0,
        version_at(3).len() == 0 && name_at(3).len() == 7,
        version_at(4).len() == 39 && name_at(4).len() == 1,
{
    assert(version_at(a).len() == if a == 1 { 5nat } else if a == 2 { 9 } else if a == 4 { 39 } else {
        0
    });
    assert(version_at(b).len() == if b == 1 { 5nat } else if b == 2 { 9 } else if b == 4 { 39 } else {
        0
    });
    assert(name_at(a).len() == if a == 1 { 6nat } else if a == 3 { 7 } else if a == 4 { 1 } else { 0 });
    assert(name_at(b).len() == if b == 1 { 6nat } else if b == 3 { 7 } else if b == 4 { 1 } else { 0 });
}

/// A node nothing is known of is known as one that said nothing: zeros and
/// empty strings. One that is known is known as it described itself.
pub proof fn law_an_unknown_node_said_nothing(cached: Cached)
    ensures
        known(None).info.node_id == 0,
        known(None).info == nothing(),
        known(None).version_string.len() == 0,
        known(None).device_name.len() == 0,
        known(Some(cached)).info == cached.info,
        known(Some(cached)).version_string == cached.version_string@,
        known(Some(cached)).device_name == cached.device_name@,
        nothing().vendor_id == 0 && nothing().product_id == 0 && nothing().git_sha == 0,
        nothing().ver_major == 0 && nothing().ver_minor == 0 && nothing().ver_rev == 0
            && nothing().ver_hw == 0,
        forall|i: int| 0 <= i < 16 ==> #[trigger] nothing().serial_num@[i] == 0,
{
}

/// Caches are faulted for what is wrong with them: too little room to tell; a
/// neighbour that is known otherwise, the first there is; or a node that is
/// known without being a neighbour, once all neighbours are known alike.
pub proof fn law_a_cache_is_faulted_for_what_is_wrong(
    room: Room,
    reference: Seq<(u64, Cached)>,
    ours: Seq<Option<Cached>>,
    cached: Seq<u64>,
    divergence: InfoDivergence,
)
    requires
        caches_part(room, reference, ours, cached, divergence),
    ensures
        match divergence {
            InfoDivergence::RequestsFull => room.requests >= room.request_capacity,
            InfoDivergence::CacheFull => room.cached >= room.cache_capacity,
            InfoDivergence::Known { node_id } => exists|i: int|
                0 <= i < reference.len() && (#[trigger] reference[i]).0 == node_id
                    && reference[i].1@ != known(ours[i]),
            InfoDivergence::Stray { node_id } => {
                &&& cached.contains(node_id)
                &&& forall|i: int| 0 <= i < reference.len() ==> (#[trigger] reference[i]).0 != node_id
                &&& forall|i: int|
                    0 <= i < reference.len() ==> (#[trigger] reference[i]).1@ == known(ours[i])
            },
            _ => false,
        },
{
}

/// The request a reply answers is the first under its key: it is one of those
/// outstanding, and none before it has that key.
pub proof fn law_the_oldest_request_under_a_key_is_answered(view: RequestsView, key: u32, a: int, b: int)
    requires
        view.first(key, a),
    ensures
        0 <= a < view.keys.len(),
        view.keys[a] == key,
        0 <= b < view.keys.len() && view.keys[b] == key ==> a <= b,
        view.first(key, b) ==> a == b,
{
}

/// Two caches look the same exactly if they hold as many descriptions and each
/// looks as its counterpart does.
pub proof fn law_caches_look_the_same_entry_by_entry(a: Seq<Cached>, b: Seq<Cached>)
    ensures
        cached_view(a) == cached_view(b) <==> a.len() == b.len() && forall|i: int|
            0 <= i < a.len() ==> (#[trigger] a[i])@ == b[i]@,
{
    if cached_view(a) == cached_view(b) {
        assert(cached_view(a).len() == a.len() && cached_view(b).len() == b.len());
        assert forall|i: int| 0 <= i < a.len() implies (#[trigger] a[i])@ == b[i]@ by {
            assert(cached_view(a)[i] == cached_view(b)[i]);
        }
    }
    if a.len() == b.len() && forall|i: int| 0 <= i < a.len() ==> (#[trigger] a[i])@ == b[i]@ {
        assert(cached_view(a) =~= cached_view(b));
    }
}

/// A script may have up to 24 steps, each of which the reference takes.
pub proof fn law_a_script_is_bounded(input: InfoInput)
    ensures
        input.in_domain() <==> input.steps@.len() <= 24 && forall|i: int|
            0 <= i < input.steps@.len() ==> (#[trigger] input.steps@[i]).in_domain(),
{
}

} // verus!
