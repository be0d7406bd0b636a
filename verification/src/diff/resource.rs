//! Comparing resource discovery: the lists of what a node publishes and
//! subscribes to, the requests it sends for somebody else's, and the replies it
//! takes for an answer.
//!
//! The reference looks a name up by comparing as many bytes as the name it
//! looks for has, whatever the names on the list have. So a name shorter than
//! the one looked for is read past its end, and such steps are withheld; a name
//! that is a strict prefix of one on the list is found, and that is compared in
//! full. The lists only ever grow, so one short name on them would put every
//! later lookup out of bounds: a short name is only ever added in the knowledge
//! that it will be refused.
use vstd::arithmetic::div_mod::lemma_small_mod;
use vstd::prelude::*;

use crate::bytes::{copied, first_difference, shorter};
use crate::diff::compare::{
    bytes_view, capture_view, captures_view, diverges, same_frames, Captured, FrameDivergence,
};
use crate::diff::domain::{fold_port, folded_port, Domain};
use crate::diff::ll::{LinkModel, Links};
use crate::diff::stack::{NODE_ID, NUM_PORTS};
use crate::frame::IPV6_SOURCE_ADDRESS_OFFSET;
use crate::fuzz::{
    draw_bool, draw_in_range, draw_u8, in_range, is_empty, law_a_tag_is_one_byte,
    law_what_is_written_first_is_drawn_first, odd, padded, past_range, rest, source, unread,
};
use crate::message::MessageType;
use arbitrary::Unstructured;

verus! {

/// The node ids a request may name.
///
/// The second is the reference's own, the only one it answers for. Node id 0
/// names nobody. The last shares its low 32 bits with the third, which makes
/// the two one entry on a request list and two targets to whoever is asked.
pub const TARGETS: [u64; 4] = [
    0,
    0xC0FF_EE00_1234_5678,
    0x0000_0000_55AA_0011,
    0xDEAD_BEEF_55AA_0011,
];

/// The node ids an injected frame may come from, or claim in its body.
///
/// None is the reference's own: a relayed frame keeps its source address, and
/// the source address is how a frame the reference built is told from one it
/// relayed.
pub const PEER_IDS: [u64; 4] = [
    0,
    0x0000_0000_55AA_0011,
    0x0000_0000_55AA_0022,
    0xDEAD_BEEF_55AA_0011,
];

/// The id an incoming request appears to come from. Nobody reads it: the
/// answer goes where the request went.
pub const REQUESTER_ID: u64 = 0x0000_0000_55AA_0022;

/// Longest name a step may look for, and shortest a list may come to hold.
pub const RESOURCE_LEN: usize = 12;

/// `spotter/time`
const NAME_0: [u8; 12] = [0x73, 0x70, 0x6f, 0x74, 0x74, 0x65, 0x72, 0x2f, 0x74, 0x69, 0x6d, 0x65];

/// `sensor/temp1`
const NAME_1: [u8; 12] = [0x73, 0x65, 0x6e, 0x73, 0x6f, 0x72, 0x2f, 0x74, 0x65, 0x6d, 0x70, 0x31];

/// `sensor/temp2`
const NAME_2: [u8; 12] = [0x73, 0x65, 0x6e, 0x73, 0x6f, 0x72, 0x2f, 0x74, 0x65, 0x6d, 0x70, 0x32];

/// `nothing-like`
const NAME_3: [u8; 12] = [0x6e, 0x6f, 0x74, 0x68, 0x69, 0x6e, 0x67, 0x2d, 0x6c, 0x69, 0x6b, 0x65];

/// `spotter`
const NAME_4: [u8; 7] = [0x73, 0x70, 0x6f, 0x74, 0x74, 0x65, 0x72];

/// `sensor/`
const NAME_5: [u8; 7] = [0x73, 0x65, 0x6e, 0x73, 0x6f, 0x72, 0x2f];

/// The empty name.
const NAME_6: [u8; 0] = [];

/// How many names a step may choose from. The first four are [`RESOURCE_LEN`]
/// bytes long and may be stored; the others are shorter.
pub const NAMES: u8 = 7;

/// How many shapes a reply may have.
pub const REPLY_SHAPES: u8 = 5;

/// Most steps a single input may carry.
pub const MAX_STEPS: usize = 24;

/// How many resources the node holds across both lists. Four names on two
/// lists, and one more the stack subscribes to by itself, leave one to spare.
pub const RESOURCES: usize = 10;

/// Longest name the node's table keeps.
pub const RESOURCE_NAME: usize = 48;

/// How many unanswered requests the node remembers. A step adds at most one,
/// which leaves one to spare.
pub const REQUEST_CAPACITY: usize = 25;

/// The name at `index`.
pub open spec fn name_at(index: u8) -> Seq<u8> {
    if index == 0 {
        seq![0x73u8, 0x70, 0x6f, 0x74, 0x74, 0x65, 0x72, 0x2f, 0x74, 0x69, 0x6d, 0x65]
    } else if index == 1 {
        seq![0x73u8, 0x65, 0x6e, 0x73, 0x6f, 0x72, 0x2f, 0x74, 0x65, 0x6d, 0x70, 0x31]
    } else if index == 2 {
        seq![0x73u8, 0x65, 0x6e, 0x73, 0x6f, 0x72, 0x2f, 0x74, 0x65, 0x6d, 0x70, 0x32]
    } else if index == 3 {
        seq![0x6eu8, 0x6f, 0x74, 0x68, 0x69, 0x6e, 0x67, 0x2d, 0x6c, 0x69, 0x6b, 0x65]
    } else if index == 4 {
        seq![0x73u8, 0x70, 0x6f, 0x74, 0x74, 0x65, 0x72]
    } else if index == 5 {
        seq![0x73u8, 0x65, 0x6e, 0x73, 0x6f, 0x72, 0x2f]
    } else {
        Seq::empty()
    }
}

/// The name at `index`.
#[must_use]
pub fn name(index: u8) -> (r: &'static [u8])
    ensures
        r@ == name_at(index),
        r@.len() <= RESOURCE_LEN,
        index < 4 ==> r@.len() == RESOURCE_LEN,
{
    let name: &'static [u8] = match index {
        0 => &NAME_0,
        1 => &NAME_1,
        2 => &NAME_2,
        3 => &NAME_3,
        4 => &NAME_4,
        5 => &NAME_5,
        _ => &NAME_6,
    };
    assert(name@ =~= name_at(index));
    name
}

/// The two lists.
#[derive(Debug, Clone, Copy, PartialEq, Eq, Structural)]
pub enum ResourceType {
    /// What a node publishes.
    Publisher,
    /// What it subscribes to.
    Subscriber,
}

/// The list a step speaks of.
pub open spec fn kind(subscriber: bool) -> ResourceType {
    if subscriber {
        ResourceType::Subscriber
    } else {
        ResourceType::Publisher
    }
}

/// The list a step speaks of.
#[must_use]
pub fn kind_of(subscriber: bool) -> (r: ResourceType)
    ensures
        r == kind(subscriber),
{
    if subscriber {
        ResourceType::Subscriber
    } else {
        ResourceType::Publisher
    }
}

/// One thing that happens to a node.
#[allow(inconsistent_fields)]
#[derive(Debug, Clone, Copy, PartialEq, Eq, Structural)]
pub enum Step {
    /// A resource is advertised.
    Add {
        /// Which name.
        name: u8,
        /// On the list of subscriptions rather than publications.
        subscriber: bool,
    },
    /// A resource is looked up.
    Find {
        /// Which name.
        name: u8,
        /// On the list of subscriptions rather than publications.
        subscriber: bool,
    },
    /// The node asks someone for their resources.
    Request {
        /// Whom, by its place in [`TARGETS`].
        node: u8,
        /// Whether anybody wants to hear the answer.
        report: bool,
    },
    /// A request arrives, which is answered only where it names the node.
    Incoming {
        /// Whom it names, by its place in [`TARGETS`].
        target: u8,
        /// Ingress port, 1..=[`NUM_PORTS`].
        port: u8,
    },
    /// A reply arrives.
    Reply {
        /// Whose source address it has, by its place in [`PEER_IDS`].
        from: u8,
        /// Whose resources the body claims to be, by its place in
        /// [`PEER_IDS`]; the two must agree for the reply to be looked at.
        claims: u8,
        /// Ingress port, 1..=[`NUM_PORTS`].
        port: u8,
        /// What it lists, below [`REPLY_SHAPES`].
        shape: u8,
    },
}

impl Step {
    /// Whether every part is in range.
    pub open spec fn in_domain(self) -> bool {
        match self {
            Step::Add { name, .. } => name < NAMES,
            Step::Find { name, .. } => name < NAMES,
            Step::Request { node, .. } => node < 4,
            Step::Incoming { target, port } => target < 4 && 1 <= port <= NUM_PORTS,
            Step::Reply { from, claims, port, shape } => from < 4 && claims < 4 && 1 <= port
                <= NUM_PORTS && shape < REPLY_SHAPES,
        }
    }

    /// The step with every part folded into range.
    pub open spec fn clamped(self) -> Step {
        match self {
            Step::Add { name, subscriber } => Step::Add { name: name % 7, subscriber },
            Step::Find { name, subscriber } => Step::Find { name: name % 7, subscriber },
            Step::Request { node, report } => Step::Request { node: node % 4, report },
            Step::Incoming { target, port } => Step::Incoming {
                target: target % 4,
                port: folded_port(port, NUM_PORTS),
            },
            Step::Reply { from, claims, port, shape } => Step::Reply {
                from: from % 4,
                claims: claims % 4,
                port: folded_port(port, NUM_PORTS),
                shape: shape % 5,
            },
        }
    }

    /// Fold every part into range.
    #[must_use]
    pub fn clamp(self) -> (r: Step)
        ensures
            r == self.clamped(),
            r.in_domain(),
            self.in_domain() ==> r == self,
    {
        let folded = match self {
            Step::Add { name, subscriber } => Step::Add { name: name % NAMES, subscriber },
            Step::Find { name, subscriber } => Step::Find { name: name % NAMES, subscriber },
            Step::Request { node, report } => Step::Request { node: node % 4, report },
            Step::Incoming { target, port } => Step::Incoming {
                target: target % 4,
                port: fold_port(port, NUM_PORTS),
            },
            Step::Reply { from, claims, port, shape } => Step::Reply {
                from: from % 4,
                claims: claims % 4,
                port: fold_port(port, NUM_PORTS),
                shape: shape % REPLY_SHAPES,
            },
        };
        proof {
            if self.in_domain() {
                match self {
                    Step::Add { name, .. } => lemma_small_mod(name as nat, 7),
                    Step::Find { name, .. } => lemma_small_mod(name as nat, 7),
                    Step::Request { node, .. } => lemma_small_mod(node as nat, 4),
                    Step::Incoming { target, .. } => lemma_small_mod(target as nat, 4),
                    Step::Reply { from, claims, shape, .. } => {
                        lemma_small_mod(from as nat, 4);
                        lemma_small_mod(claims as nat, 4);
                        lemma_small_mod(shape as nat, 5);
                    },
                }
            }
        }
        folded
    }
}

/// One step drawn from `s`, and what that leaves.
pub open spec fn drawn_step(s: Seq<u8>) -> (Step, Seq<u8>) {
    let tag = in_range(s, 0, 4);
    let s1 = past_range(s, 4);
    let s2 = rest(s1, 1);
    if tag == 0 {
        (Step::Add { name: padded(s1, 1)[0], subscriber: odd(s2) }.clamped(), rest(s2, 1))
    } else if tag == 1 {
        (Step::Find { name: padded(s1, 1)[0], subscriber: odd(s2) }.clamped(), rest(s2, 1))
    } else if tag == 2 {
        (Step::Request { node: padded(s1, 1)[0], report: odd(s2) }.clamped(), rest(s2, 1))
    } else if tag == 3 {
        (
            Step::Incoming { target: padded(s1, 1)[0], port: padded(s2, 1)[0] }.clamped(),
            rest(s2, 1),
        )
    } else {
        let s3 = rest(s2, 1);
        let s4 = rest(s3, 1);
        (
            Step::Reply {
                from: padded(s1, 1)[0],
                claims: padded(s2, 1)[0],
                port: padded(s3, 1)[0],
                shape: padded(s4, 1)[0],
            }.clamped(),
            rest(s4, 1),
        )
    }
}

/// One step, drawn as [`drawn_step`] says.
pub fn arbitrary_step(u: &mut Unstructured<'_>) -> (r: Step)
    ensures
        (r, unread(final(u))) == drawn_step(unread(old(u))),
        r.in_domain(),
{
    let step = match draw_in_range(u, 0, 4) {
        0 => {
            let name = draw_u8(u);
            let subscriber = draw_bool(u);
            Step::Add { name, subscriber }
        },
        1 => {
            let name = draw_u8(u);
            let subscriber = draw_bool(u);
            Step::Find { name, subscriber }
        },
        2 => {
            let node = draw_u8(u);
            let report = draw_bool(u);
            Step::Request { node, report }
        },
        3 => {
            let target = draw_u8(u);
            let port = draw_u8(u);
            Step::Incoming { target, port }
        },
        _ => {
            let from = draw_u8(u);
            let claims = draw_u8(u);
            let port = draw_u8(u);
            let shape = draw_u8(u);
            Step::Reply { from, claims, port, shape }
        },
    };
    step.clamp()
}

/// Up to `n` steps drawn from `s`, as long as there are bytes.
pub open spec fn drawn_steps(s: Seq<u8>, n: nat) -> Seq<Step>
    decreases n,
{
    if s.len() == 0 || n == 0 {
        Seq::empty()
    } else {
        let (step, left) = drawn_step(s);
        seq![step] + drawn_steps(left, (n - 1) as nat)
    }
}

/// What drawing up to `n` steps leaves of `s`.
pub open spec fn past_steps(s: Seq<u8>, n: nat) -> Seq<u8>
    decreases n,
{
    if s.len() == 0 || n == 0 {
        s
    } else {
        past_steps(drawn_step(s).1, (n - 1) as nat)
    }
}

/// A sequence of steps applied to both nodes.
#[derive(Debug)]
pub struct ResourceInput {
    /// The steps, at most [`MAX_STEPS`].
    pub steps: Vec<Step>,
}

impl Domain for ResourceInput {
    open spec fn in_domain(&self) -> bool {
        &&& self.steps@.len() <= MAX_STEPS
        &&& forall|i: int| 0 <= i < self.steps@.len() ==> (#[trigger] self.steps@[i]).in_domain()
    }

    fn clamp_to_domain(&mut self)
        ensures
            final(self).steps@.len() == shorter(old(self).steps@.len(), MAX_STEPS as nat),
            forall|i: int|
                0 <= i < final(self).steps@.len() ==> #[trigger] final(self).steps@[i] == old(
                    self,
                ).steps@[i].clamped(),
    {
        self.steps.truncate(MAX_STEPS);
        let mut index: usize = 0;
        while index < self.steps.len()
            invariant
                index <= self.steps@.len() <= MAX_STEPS,
                self.steps@.len() == shorter(old(self).steps@.len(), MAX_STEPS as nat),
                forall|i: int|
                    0 <= i < index ==> #[trigger] self.steps@[i] == old(self).steps@[i].clamped()
                        && self.steps@[i].in_domain(),
                forall|i: int|
                    index <= i < self.steps@.len() ==> #[trigger] self.steps@[i] == old(
                        self,
                    ).steps@[i],
            decreases self.steps@.len() - index,
        {
            let step = self.steps[index].clamp();
            self.steps.set(index, step);
            index = index + 1;
        }
    }
}

impl ResourceInput {
    /// Draw a script.
    pub fn arbitrary(u: &mut Unstructured<'_>) -> (r: Self)
        ensures
            r.steps@ == drawn_steps(unread(old(u)), MAX_STEPS as nat),
            unread(final(u)) == past_steps(unread(old(u)), MAX_STEPS as nat),
            r.in_domain(),
    {
        let mut steps: Vec<Step> = Vec::new();
        let ghost all = drawn_steps(unread(u), MAX_STEPS as nat);
        while !is_empty(u) && steps.len() < MAX_STEPS
            invariant
                steps@.len() <= MAX_STEPS,
                forall|i: int| 0 <= i < steps@.len() ==> (#[trigger] steps@[i]).in_domain(),
                steps@ + drawn_steps(unread(u), (MAX_STEPS - steps@.len()) as nat) =~= all,
                past_steps(unread(u), (MAX_STEPS - steps@.len()) as nat) == past_steps(
                    unread(old(u)),
                    MAX_STEPS as nat,
                ),
            decreases MAX_STEPS - steps@.len(),
        {
            let ghost before = steps@;
            let ghost s = unread(u);
            steps.push(arbitrary_step(u));
            assert(steps@ + drawn_steps(unread(u), (MAX_STEPS - steps@.len()) as nat) =~= before
                + drawn_steps(s, (MAX_STEPS - before.len()) as nat));
        }
        ResourceInput { steps }
    }

    /// The script a seed file holds.
    pub fn from_seed(seed: &[u8]) -> (r: Self)
        ensures
            r.steps@ == drawn_steps(seed@, MAX_STEPS as nat),
            r.in_domain(),
    {
        let mut u = source(seed);
        ResourceInput::arbitrary(&mut u)
    }
}

/// The names a reply of this shape publishes, by their places in the pool.
pub open spec fn shape_publishers(shape: u8) -> Seq<u8> {
    if shape == 1 {
        seq![0u8]
    } else if shape == 3 {
        seq![0u8, 1]
    } else if shape == 4 {
        seq![3u8]
    } else {
        Seq::empty()
    }
}

/// The names a reply of this shape subscribes to, by their places in the pool.
pub open spec fn shape_subscribers(shape: u8) -> Seq<u8> {
    if shape == 2 {
        seq![1u8]
    } else if shape == 3 {
        seq![2u8]
    } else if shape == 4 {
        seq![0u8, 1, 2]
    } else {
        Seq::empty()
    }
}

/// The names at these places.
pub open spec fn names_at(places: Seq<u8>) -> Seq<Seq<u8>> {
    places.map_values(|i: u8| name_at(i))
}

/// Append the name at `index`.
fn push_name(names: &mut Vec<Vec<u8>>, index: u8)
    ensures
        bytes_view(final(names)@) == bytes_view(old(names)@).push(name_at(index)),
{
    names.push(copied(name(index)));
    assert(bytes_view(names@) =~= bytes_view(old(names)@).push(name_at(index)));
}

/// One reply, as either side saw it.
#[derive(Debug, PartialEq, Eq)]
pub struct Reported {
    /// Whose resources it lists.
    pub node_id: u64,
    /// What they publish, in order.
    pub publishers: Vec<Vec<u8>>,
    /// What they subscribe to, in order.
    pub subscribers: Vec<Vec<u8>>,
}

/// One reply, as a value.
#[verifier::ext_equal]
pub struct ReportedView {
    /// Whose resources it lists.
    pub node_id: u64,
    /// What they publish, in order.
    pub publishers: Seq<Seq<u8>>,
    /// What they subscribe to, in order.
    pub subscribers: Seq<Seq<u8>>,
}

impl View for Reported {
    type V = ReportedView;

    open spec fn view(&self) -> ReportedView {
        ReportedView {
            node_id: self.node_id,
            publishers: bytes_view(self.publishers@),
            subscribers: bytes_view(self.subscribers@),
        }
    }
}

/// Whether two lists of names are the same, in order.
#[must_use]
pub fn same_names(a: &[Vec<u8>], b: &[Vec<u8>]) -> (r: bool)
    ensures
        r <==> bytes_view(a@) == bytes_view(b@),
{
    if a.len() != b.len() {
        assert(bytes_view(a@).len() != bytes_view(b@).len());
        return false;
    }
    let mut index: usize = 0;
    while index < a.len()
        invariant
            index <= a@.len(),
            a@.len() == b@.len(),
            forall|i: int| 0 <= i < index ==> (#[trigger] a@[i])@ == b@[i]@,
        decreases a@.len() - index,
    {
        if first_difference(a[index].as_slice(), b[index].as_slice()).is_some() {
            assert(bytes_view(a@)[index as int] != bytes_view(b@)[index as int]);
            return false;
        }
        index = index + 1;
    }
    assert(bytes_view(a@) =~= bytes_view(b@));
    true
}

impl Reported {
    /// Whether both sides saw the same reply.
    #[must_use]
    pub fn same(&self, other: &Reported) -> (r: bool)
        ensures
            r <==> self@ == other@,
    {
        self.node_id == other.node_id && same_names(
            self.publishers.as_slice(),
            other.publishers.as_slice(),
        ) && same_names(self.subscribers.as_slice(), other.subscribers.as_slice())
    }
}

/// What a reply of this shape says.
#[must_use]
pub fn expected_report(claims: u64, shape: u8) -> (r: Reported)
    ensures
        r@ == (ReportedView {
            node_id: claims,
            publishers: names_at(shape_publishers(shape)),
            subscribers: names_at(shape_subscribers(shape)),
        }),
{
    let mut publishers: Vec<Vec<u8>> = Vec::new();
    let mut subscribers: Vec<Vec<u8>> = Vec::new();
    match shape {
        1 => push_name(&mut publishers, 0),
        2 => push_name(&mut subscribers, 1),
        3 => {
            push_name(&mut publishers, 0);
            push_name(&mut publishers, 1);
            push_name(&mut subscribers, 2);
        },
        4 => {
            push_name(&mut publishers, 3);
            push_name(&mut subscribers, 0);
            push_name(&mut subscribers, 1);
            push_name(&mut subscribers, 2);
        },
        _ => {},
    }
    assert(bytes_view(publishers@) =~= names_at(shape_publishers(shape)));
    assert(bytes_view(subscribers@) =~= names_at(shape_subscribers(shape)));
    Reported { node_id: claims, publishers, subscribers }
}

/// Whether looking for `name` stops at `stored`: it starts with the name.
pub open spec fn starts_with(stored: Seq<u8>, name: Seq<u8>) -> bool {
    stored.len() >= name.len() && stored.take(name.len() as int) == name
}

/// Whether `name` is found on a list.
pub open spec fn found(list: Seq<Seq<u8>>, name: Seq<u8>) -> bool {
    exists|i: int| 0 <= i < list.len() && starts_with(#[trigger] list[i], name)
}

/// Whether looking for `name` reads past an entry: it comes to one shorter
/// than the name before it finds anything.
pub open spec fn reads_past(list: Seq<Seq<u8>>, name: Seq<u8>) -> bool {
    exists|i: int|
        {
            &&& 0 <= i < list.len()
            &&& (#[trigger] list[i]).len() < name.len()
            &&& forall|j: int| 0 <= j < i ==> !starts_with(#[trigger] list[j], name)
        }
}

/// Whether every name on a list is long enough to be compared with any name a
/// step may look for.
pub open spec fn long_enough(list: Seq<Seq<u8>>) -> bool {
    forall|i: int| 0 <= i < list.len() ==> (#[trigger] list[i]).len() >= RESOURCE_LEN
}

/// Whether `stored` starts with `name`.
fn is_prefix(name: &[u8], stored: &[u8]) -> (r: bool)
    ensures
        r <==> starts_with(stored@, name@),
{
    if stored.len() < name.len() {
        return false;
    }
    let front = vstd::slice::slice_subrange(stored, 0, name.len());
    assert(front@ =~= stored@.take(name@.len() as int));
    first_difference(front, name).is_none()
}

/// What the reference remembers: its two lists, and the requests it has
/// outstanding.
///
/// This is a belief rather than a reading. It says why each side did what it
/// did, and being wrong about it is a divergence too. The reference's lists
/// outlive every script, and so does this.
#[derive(Debug)]
pub struct Model {
    /// What is published, oldest first.
    pub publishers: Vec<Vec<u8>>,
    /// What is subscribed to, oldest first.
    pub subscribers: Vec<Vec<u8>>,
    /// The low 32 bits of each target asked, and whether anybody wants to hear
    /// the answer.
    pub requests: Vec<(u32, bool)>,
    /// How the list of requests is linked, so that an append through a
    /// dangling tail is declined.
    pub links: LinkModel,
}

/// What the reference remembers, as a value.
#[verifier::ext_equal]
pub struct Memory {
    /// What is published, oldest first.
    pub publishers: Seq<Seq<u8>>,
    /// What is subscribed to, oldest first.
    pub subscribers: Seq<Seq<u8>>,
    /// The requests outstanding.
    pub requests: Seq<(u32, bool)>,
    /// How they are linked.
    pub links: Links,
}

impl View for Model {
    type V = Memory;

    open spec fn view(&self) -> Memory {
        Memory {
            publishers: bytes_view(self.publishers@),
            subscribers: bytes_view(self.subscribers@),
            requests: self.requests@,
            links: self.links@,
        }
    }
}

impl Memory {
    /// Every request is a node of the list.
    pub open spec fn well_formed(self) -> bool {
        self.requests.len() == self.links.nodes.len() && self.links.well_formed()
    }

    /// One of the lists.
    pub open spec fn list(self, kind: ResourceType) -> Seq<Seq<u8>> {
        match kind {
            ResourceType::Publisher => self.publishers,
            ResourceType::Subscriber => self.subscribers,
        }
    }

    /// One more name on one of the lists.
    pub open spec fn with(self, kind: ResourceType, name: Seq<u8>) -> Memory {
        match kind {
            ResourceType::Publisher => Memory { publishers: self.publishers.push(name), ..self },
            ResourceType::Subscriber => Memory { subscribers: self.subscribers.push(name), ..self },
        }
    }

    /// After advertising a name: it is added unless it is found.
    pub open spec fn advertised(self, kind: ResourceType, name: Seq<u8>) -> Memory {
        if found(self.list(kind), name) {
            self
        } else {
            self.with(kind, name)
        }
    }

    /// Whether every name is long enough for any lookup.
    pub open spec fn names_long_enough(self) -> bool {
        long_enough(self.publishers) && long_enough(self.subscribers)
    }

    /// Whether the reference can run a step without reading past a name, and
    /// without coming to hold one that a later step would read past.
    pub open spec fn defined_on(self, step: Step) -> bool {
        match step {
            Step::Add { name, subscriber } => {
                &&& !reads_past(self.list(kind(subscriber)), name_at(name))
                &&& name_at(name).len() >= RESOURCE_LEN || found(
                    self.list(kind(subscriber)),
                    name_at(name),
                )
            },
            Step::Find { name, subscriber } => !reads_past(
                self.list(kind(subscriber)),
                name_at(name),
            ),
            _ => true,
        }
    }

    /// `index` is the first request with this key.
    pub open spec fn first(self, key: u32, index: int) -> bool {
        &&& 0 <= index < self.requests.len()
        &&& self.requests[index].0 == key
        &&& forall|i: int| 0 <= i < index ==> self.requests[i].0 != key
    }

    /// Whether any request has this key.
    pub open spec fn awaits(self, key: u32) -> bool {
        exists|i: int| 0 <= i < self.requests.len() && (#[trigger] self.requests[i]).0 == key
    }

    /// The memory without the request at `index`.
    pub open spec fn without(self, index: int) -> Memory {
        Memory {
            requests: self.requests.remove(index),
            links: self.links.without(index),
            ..self
        }
    }
}

impl Default for Model {
    fn default() -> (r: Self)
        ensures
            r@ == (Memory {
                publishers: Seq::empty(),
                subscribers: Seq::empty(),
                requests: Seq::empty(),
                links: Links::empty(),
            }),
            r@.well_formed(),
    {
        Model::new(Vec::new(), Vec::new())
    }
}

impl Model {
    /// What the reference remembers before it has asked anybody.
    #[must_use]
    pub fn new(publishers: Vec<Vec<u8>>, subscribers: Vec<Vec<u8>>) -> (r: Self)
        ensures
            r@ == (Memory {
                publishers: bytes_view(publishers@),
                subscribers: bytes_view(subscribers@),
                requests: Seq::empty(),
                links: Links::empty(),
            }),
            r@.well_formed(),
    {
        let model = Model {
            publishers,
            subscribers,
            requests: Vec::new(),
            links: LinkModel::new(),
        };
        assert(model@ =~= (Memory {
            publishers: bytes_view(publishers@),
            subscribers: bytes_view(subscribers@),
            requests: Seq::empty(),
            links: Links::empty(),
        }));
        model
    }

    /// One of the lists.
    #[must_use]
    pub fn list(&self, kind: ResourceType) -> (r: &Vec<Vec<u8>>)
        ensures
            bytes_view(r@) == self@.list(kind),
    {
        match kind {
            ResourceType::Publisher => &self.publishers,
            ResourceType::Subscriber => &self.subscribers,
        }
    }

    /// Whether a name is found: whether one on the list starts with it.
    #[must_use]
    pub fn find(&self, name: &[u8], kind: ResourceType) -> (r: bool)
        ensures
            r == found(self@.list(kind), name@),
    {
        let list = self.list(kind);
        let mut index: usize = 0;
        while index < list.len()
            invariant
                index <= list@.len(),
                bytes_view(list@) == self@.list(kind),
                forall|i: int| 0 <= i < index ==> !starts_with((#[trigger] list@[i])@, name@),
            decreases list@.len() - index,
        {
            if is_prefix(name, list[index].as_slice()) {
                assert(starts_with(bytes_view(list@)[index as int], name@));
                return true;
            }
            index = index + 1;
        }
        assert forall|i: int| 0 <= i < bytes_view(list@).len() implies !starts_with(
            #[trigger] bytes_view(list@)[i],
            name@,
        ) by {
            assert(bytes_view(list@)[i] == list@[i]@);
        }
        false
    }

    /// Whether looking for a name would read past an entry.
    #[must_use]
    pub fn over_reads(&self, name: &[u8], kind: ResourceType) -> (r: bool)
        ensures
            r == reads_past(self@.list(kind), name@),
    {
        let list = self.list(kind);
        let ghost seen = bytes_view(list@);
        let mut index: usize = 0;
        while index < list.len()
            invariant
                index <= list@.len(),
                seen == bytes_view(list@),
                seen == self@.list(kind),
                forall|i: int|
                    0 <= i < index ==> !starts_with(#[trigger] seen[i], name@) && seen[i].len()
                        >= name@.len(),
            decreases list@.len() - index,
        {
            assert(seen[index as int] == list@[index as int]@);
            if list[index].len() < name.len() {
                assert(reads_past(seen, name@));
                return true;
            }
            if is_prefix(name, list[index].as_slice()) {
                assert(!reads_past(seen, name@)) by {
                    assert(starts_with(seen[index as int], name@));
                }
                return false;
            }
            index = index + 1;
        }
        assert(!reads_past(seen, name@));
        false
    }

    /// Advertise a name. Says whether it was added.
    pub fn add(&mut self, name: &[u8], kind: ResourceType) -> (r: bool)
        ensures
            r == !found(old(self)@.list(kind), name@),
            final(self)@ == old(self)@.advertised(kind, name@),
    {
        if self.find(name, kind) {
            return false;
        }
        match kind {
            ResourceType::Publisher => self.publishers.push(copied(name)),
            ResourceType::Subscriber => self.subscribers.push(copied(name)),
        }
        assert(self@ =~= old(self)@.with(kind, name@)) by {
            assert(self@.publishers =~= old(self)@.with(kind, name@).publishers);
            assert(self@.subscribers =~= old(self)@.with(kind, name@).subscribers);
        }
        true
    }

    /// Whether the reference can run a step within bounds, and stay so.
    #[must_use]
    pub fn step_is_defined(&self, step: &Step) -> (r: bool)
        ensures
            r == self@.defined_on(*step),
    {
        match *step {
            Step::Add { name: which, subscriber } => {
                let needle = name(which);
                let kind = kind_of(subscriber);
                !self.over_reads(needle, kind) && (needle.len() >= RESOURCE_LEN || self.find(
                    needle,
                    kind,
                ))
            },
            Step::Find { name: which, subscriber } => !self.over_reads(
                name(which),
                kind_of(subscriber),
            ),
            _ => true,
        }
    }

    /// Whether an append to the list of requests would be undefined.
    #[must_use]
    pub fn request_add_is_undefined(&self) -> (r: bool)
        ensures
            r == self@.links.hazardous(),
    {
        self.links.add_is_undefined()
    }

    /// Whether a step has to be withheld from both nodes.
    #[must_use]
    pub fn declines(&self, step: &Step) -> (r: bool)
        ensures
            r == (step is Request && self@.links.hazardous() || !self@.defined_on(*step)),
    {
        let asks = match step {
            Step::Request { .. } => true,
            _ => false,
        };
        (asks && self.request_add_is_undefined()) || !self.step_is_defined(step)
    }

    /// A request went out.
    pub fn request_recorded(&mut self, target_node_id: u64, report: bool)
        requires
            old(self)@.well_formed(),
            !old(self)@.links.hazardous(),
            old(self)@.links.added < u64::MAX,
        ensures
            final(self)@.well_formed(),
            final(self)@ == (Memory {
                requests: old(self)@.requests.push((target_node_id as u32, report)),
                links: old(self)@.links.grown(),
                ..old(self)@
            }),
    {
        self.links.add();
        self.requests.push((target_node_id as u32, report));
    }

    /// A reply arrived. One whose claim is its source answers the first request
    /// with that key, if there is one; says whether anybody hears of it.
    pub fn reply_accepted(&mut self, claimed: u64, from: u64) -> (r: bool)
        requires
            old(self)@.well_formed(),
        ensures
            final(self)@.well_formed(),
            claimed != from || !old(self)@.awaits(from as u32) ==> !r && final(self)@ == old(
                self,
            )@,
            claimed == from && old(self)@.awaits(from as u32) ==> exists|index: int|
                {
                    &&& #[trigger] old(self)@.first(from as u32, index)
                    &&& r == old(self)@.requests[index].1
                    &&& final(self)@ == old(self)@.without(index)
                },
    {
        if claimed != from {
            return false;
        }
        let key = from as u32;
        let mut index: usize = 0;
        while index < self.requests.len()
            invariant
                index <= self.requests@.len(),
                self@ == old(self)@,
                self@.well_formed(),
                key == from as u32,
                claimed == from,
                forall|i: int| 0 <= i < index ==> self.requests@[i].0 != key,
            decreases self.requests@.len() - index,
        {
            if self.requests[index].0 == key {
                assert(old(self)@.first(key, index as int));
                assert(old(self)@.requests[index as int].0 == key);
                let entry = self.requests.remove(index);
                self.links.remove(index);
                assert(self@ =~= old(self)@.without(index as int));
                return entry.1;
            }
            index = index + 1;
        }
        assert(!old(self)@.awaits(key)) by {
            if old(self)@.awaits(key) {
                let i = choose|i: int|
                    0 <= i < old(self)@.requests.len() && (#[trigger] old(self)@.requests[i]).0
                        == key;
                assert(self.requests@[i].0 == key);
            }
        }
        false
    }

    /// Whether every stored name is long enough for any lookup.
    #[must_use]
    pub fn names_are_long_enough(&self) -> (r: bool)
        ensures
            r == self@.names_long_enough(),
    {
        all_long_enough(self.publishers.as_slice()) && all_long_enough(
            self.subscribers.as_slice(),
        )
    }

    /// The key that has waited longest.
    #[must_use]
    pub fn oldest(&self) -> (r: Option<u32>)
        ensures
            r is None <==> self@.requests.len() == 0,
            r matches Some(key) ==> key == self@.requests[0].0,
    {
        if self.requests.len() == 0 {
            None
        } else {
            Some(self.requests[0].0)
        }
    }
}

/// Whether every name on a list is long enough for any lookup.
fn all_long_enough(list: &[Vec<u8>]) -> (r: bool)
    ensures
        r == long_enough(bytes_view(list@)),
{
    let mut index: usize = 0;
    while index < list.len()
        invariant
            index <= list@.len(),
            forall|i: int| 0 <= i < index ==> (#[trigger] list@[i])@.len() >= RESOURCE_LEN,
        decreases list@.len() - index,
    {
        if list[index].len() < RESOURCE_LEN {
            assert(bytes_view(list@)[index as int].len() < RESOURCE_LEN);
            return false;
        }
        index = index + 1;
    }
    assert forall|i: int| 0 <= i < bytes_view(list@).len() implies (#[trigger] bytes_view(
        list@,
    )[i]).len() >= RESOURCE_LEN by {
        assert(bytes_view(list@)[i] == list@[i]@);
    }
    true
}

/// The replies that answer everything still outstanding, as the node id each
/// comes from and claims, so that the list is empty when a script starts.
/// Answering in order removes the head every time, which is defined however
/// the last script left the list.
pub fn drain_requests(model: &mut Model) -> (r: Vec<u64>)
    requires
        old(model)@.well_formed(),
    ensures
        r@ == old(model)@.requests.map_values(|request: (u32, bool)| request.0 as u64),
        final(model)@.well_formed(),
        final(model)@.requests.len() == 0,
        !final(model)@.links.hazardous(),
        final(model)@.publishers == old(model)@.publishers,
        final(model)@.subscribers == old(model)@.subscribers,
{
    let mut claims: Vec<u64> = Vec::new();
    let ghost all = model@.requests;
    assert(all.skip(0) =~= all);
    loop
        invariant
            model@.well_formed(),
            claims@.len() <= all.len(),
            model@.requests == all.skip(claims@.len() as int),
            model@.publishers == old(model)@.publishers,
            model@.subscribers == old(model)@.subscribers,
            claims@ =~= all.take(claims@.len() as int).map_values(
                |request: (u32, bool)| request.0 as u64,
            ),
        ensures
            model@.requests.len() == 0,
        decreases model@.requests.len(),
    {
        match model.oldest() {
            None => break,
            Some(key) => {
                let ghost before = model@;
                let ghost done = claims@.len() as int;
                let from = key as u64;
                proof {
                    assert(before.requests[0].0 == key);
                    assert(before.awaits(key));
                    assert((key as u64) as u32 == key);
                }
                let _ = model.reply_accepted(from, from);
                proof {
                    assert(model@.requests =~= before.requests.remove(0));
                    assert(before.requests.remove(0) =~= all.skip(done + 1));
                }
                claims.push(from);
            },
        }
    }
    assert(all.take(claims@.len() as int) =~= all);
    claims
}

/// Whether a captured frame was built by the reference rather than relayed by
/// it: its source address ends in the reference's own node id. The id and not
/// the whole address, because the egress port is stamped into another byte of
/// it.
pub open spec fn ours(frame: Seq<u8>) -> bool {
    &&& frame.len() >= IPV6_SOURCE_ADDRESS_OFFSET + 16
    &&& frame.subrange(
        IPV6_SOURCE_ADDRESS_OFFSET + 8,
        IPV6_SOURCE_ADDRESS_OFFSET + 16,
    ) == seq![0xC0u8, 0xFF, 0xEE, 0x00, 0x12, 0x34, 0x56, 0x78]
}

/// [`NODE_ID`], as an address ends in it.
const NODE_ID_BYTES: [u8; 8] = [0xC0, 0xFF, 0xEE, 0x00, 0x12, 0x34, 0x56, 0x78];

/// Whether a captured frame was built by the reference rather than relayed by
/// it.
#[must_use]
pub fn is_ours(frame: &[u8]) -> (r: bool)
    ensures
        r == ours(frame@),
{
    if frame.len() < IPV6_SOURCE_ADDRESS_OFFSET + 16 {
        return false;
    }
    let id = vstd::slice::slice_subrange(
        frame,
        IPV6_SOURCE_ADDRESS_OFFSET + 8,
        IPV6_SOURCE_ADDRESS_OFFSET + 16,
    );
    assert(NODE_ID_BYTES@ =~= seq![0xC0u8, 0xFF, 0xEE, 0x00, 0x12, 0x34, 0x56, 0x78]);
    first_difference(id, &NODE_ID_BYTES).is_none()
}

/// The bytes [`is_ours`] looks for are the reference's node id, the most
/// significant first.
pub proof fn law_the_reference_is_known_by_its_id()
    ensures
        crate::bytes::be(seq![0xC0u8, 0xFF, 0xEE, 0x00, 0x12, 0x34, 0x56, 0x78]) == NODE_ID,
{
    let s = seq![0xC0u8, 0xFF, 0xEE, 0x00, 0x12, 0x34, 0x56, 0x78];
    reveal_with_fuel(crate::bytes::be, 9);
    assert(s.drop_last() =~= seq![0xC0u8, 0xFF, 0xEE, 0x00, 0x12, 0x34, 0x56]);
    assert(s.drop_last().drop_last() =~= seq![0xC0u8, 0xFF, 0xEE, 0x00, 0x12, 0x34]);
    assert(s.drop_last().drop_last().drop_last() =~= seq![0xC0u8, 0xFF, 0xEE, 0x00, 0x12]);
    assert(s.drop_last().drop_last().drop_last().drop_last() =~= seq![0xC0u8, 0xFF, 0xEE, 0x00]);
    assert(crate::bytes::be(seq![0xC0u8, 0xFF, 0xEE, 0x00]) == 0xC0FF_EE00) by {
        let q = seq![0xC0u8, 0xFF, 0xEE, 0x00];
        assert(q.drop_last() =~= seq![0xC0u8, 0xFF, 0xEE]);
        assert(q.drop_last().drop_last() =~= seq![0xC0u8, 0xFF]);
        assert(q.drop_last().drop_last().drop_last() =~= seq![0xC0u8]);
        assert(q.drop_last().drop_last().drop_last().drop_last() =~= Seq::<u8>::empty());
    }
}

/// Whether a captured frame is a resource-discovery message the reference
/// built.
pub open spec fn built(frame: Seq<u8>, message_type: Option<MessageType>) -> bool {
    &&& message_type == Some(MessageType::ResourceTableRequest) || message_type == Some(
        MessageType::ResourceTableReply,
    )
    &&& ours(frame)
}

/// The captured frames that are resource-discovery messages the reference
/// built.
pub open spec fn all_built(
    frames: Seq<Captured>,
    types: Seq<Option<MessageType>>,
) -> Seq<(u8, Seq<u8>)>
    decreases frames.len(),
{
    if frames.len() == 0 {
        Seq::empty()
    } else {
        let before = all_built(frames.drop_last(), types);
        if built(frames.last().1@, types[frames.len() - 1]) {
            before.push(capture_view(frames.last()))
        } else {
            before
        }
    }
}

/// The captured frames that are resource-discovery messages the reference
/// built, given the type each of them names.
#[must_use]
pub fn built_by_the_oracle(
    frames: &[Captured],
    types: &[Option<MessageType>],
) -> (r: Vec<Captured>)
    requires
        frames@.len() == types@.len(),
    ensures
        captures_view(r@) == all_built(frames@, types@),
{
    let mut found: Vec<Captured> = Vec::new();
    let mut index: usize = 0;
    assert(captures_view(found@) =~= all_built(frames@.take(0), types@));
    while index < frames.len()
        invariant
            index <= frames@.len(),
            frames@.len() == types@.len(),
            captures_view(found@) == all_built(frames@.take(index as int), types@),
        decreases frames@.len() - index,
    {
        proof {
            assert(frames@.take(index + 1).drop_last() =~= frames@.take(index as int));
        }
        let wanted = match types[index] {
            Some(MessageType::ResourceTableRequest) => true,
            Some(MessageType::ResourceTableReply) => true,
            _ => false,
        };
        if wanted && is_ours(frames[index].1.as_slice()) {
            let ghost before = found@;
            found.push((frames[index].0, copied(frames[index].1.as_slice())));
            assert(captures_view(found@) =~= captures_view(before).push(
                capture_view(frames@[index as int]),
            ));
        }
        index = index + 1;
    }
    assert(frames@.take(index as int) =~= frames@);
    found
}

/// How resource discovery differs.
#[derive(Debug, Clone, Copy, PartialEq, Eq, Structural)]
pub enum ResourceDivergence {
    /// The reference's add did not do what was expected.
    ReferenceAdd,
    /// The node's add did not do what was expected.
    NodeAdd,
    /// The lookups differ.
    Find,
    /// The two built a different number of messages.
    Built {
        /// How many the reference built.
        reference: usize,
    },
    /// The messages differ.
    Frames(FrameDivergence),
    /// The two handed on different replies.
    Reported,
    /// A reply was handed on when it should not have been, or the other way
    /// round, or it says something else.
    Report,
    /// The node's table of resources is full.
    ResourcesFull,
    /// The node's list of requests is full.
    RequestsFull,
    /// A list's length is not what was expected.
    Count {
        /// Which list.
        kind: ResourceType,
    },
    /// The node counts another number of names than the reference.
    NodeCount {
        /// Which list.
        kind: ResourceType,
    },
    /// A list is not what was expected.
    List {
        /// Which list.
        kind: ResourceType,
    },
    /// The two report different tables of their own resources.
    Body,
    /// The table the two report is not the one that was expected.
    BodyExpected,
}

/// Whether both adds did what was expected: `added` on the list, or refused
/// because the name was found.
pub fn check_add(
    added: bool,
    reference_added: bool,
    node_added: bool,
) -> (r: Result<(), ResourceDivergence>)
    ensures
        r == if reference_added != added {
            Err(ResourceDivergence::ReferenceAdd)
        } else if node_added != added {
            Err(ResourceDivergence::NodeAdd)
        } else {
            Ok::<(), ResourceDivergence>(())
        },
{
    if reference_added != added {
        return Err(ResourceDivergence::ReferenceAdd);
    }
    if node_added != added {
        return Err(ResourceDivergence::NodeAdd);
    }
    Ok(())
}

/// Whether the reference, the node and the model agree on a lookup.
pub fn check_find(
    expected: bool,
    reference_found: bool,
    node_found: bool,
) -> (r: Result<(), ResourceDivergence>)
    ensures
        r == if expected == reference_found && node_found == reference_found {
            Ok::<(), ResourceDivergence>(())
        } else {
            Err(ResourceDivergence::Find)
        },
{
    if expected != reference_found || node_found != reference_found {
        return Err(ResourceDivergence::Find);
    }
    Ok(())
}

/// Compare the messages both sides built: one copy of the node's per port, if
/// it built one.
pub fn check_built(
    reference: &[Captured],
    node: Option<&[Captured]>,
) -> (r: Result<(), ResourceDivergence>)
    ensures
        r is Ok <==> match node {
            Some(stamped) => reference@.len() == NUM_PORTS && captures_view(reference@)
                == captures_view(stamped@),
            None => reference@.len() == 0,
        },
        r matches Err(divergence) ==> match divergence {
            ResourceDivergence::Built { reference: count } => count == reference@.len() && count
                != (if node is Some {
                NUM_PORTS as nat
            } else {
                0
            }),
            ResourceDivergence::Frames(frames) => {
                &&& reference@.len() == NUM_PORTS
                &&& node matches Some(stamped)
                &&& diverges(reference@, stamped@, frames)
            },
            _ => false,
        },
{
    match node {
        Some(stamped) => {
            if reference.len() != NUM_PORTS as usize {
                return Err(ResourceDivergence::Built { reference: reference.len() });
            }
            match same_frames(reference, stamped) {
                Ok(()) => Ok(()),
                Err(divergence) => Err(ResourceDivergence::Frames(divergence)),
            }
        },
        None => {
            if reference.len() != 0 {
                return Err(ResourceDivergence::Built { reference: reference.len() });
            }
            Ok(())
        },
    }
}

/// Several replies, as values.
pub open spec fn reported_view(reported: Seq<Reported>) -> Seq<ReportedView> {
    reported.map_values(|r: Reported| r@)
}

/// Whether both sides saw the same replies, in order.
fn same_reports(reference: &[Reported], node: &[Reported]) -> (r: bool)
    ensures
        r <==> reported_view(reference@) == reported_view(node@),
{
    if reference.len() != node.len() {
        assert(reported_view(reference@).len() != reported_view(node@).len());
        return false;
    }
    let mut index: usize = 0;
    while index < reference.len()
        invariant
            index <= reference@.len(),
            reference@.len() == node@.len(),
            forall|i: int| 0 <= i < index ==> (#[trigger] reference@[i])@ == node@[i]@,
        decreases reference@.len() - index,
    {
        if !reference[index].same(&node[index]) {
            assert(reported_view(reference@)[index as int] != reported_view(node@)[index as int]);
            return false;
        }
        index = index + 1;
    }
    assert(reported_view(reference@) =~= reported_view(node@));
    true
}

/// Compare the replies both sides handed on, and hold them to what was
/// expected of the step: a single reply, or none.
pub fn check_reported(
    reference: &[Reported],
    node: &[Reported],
    expected: &Option<Reported>,
) -> (r: Result<(), ResourceDivergence>)
    ensures
        r is Ok <==> {
            &&& reported_view(reference@) == reported_view(node@)
            &&& reported_view(node@) == match expected {
                Some(reply) => seq![reply@],
                None => Seq::empty(),
            }
        },
        r matches Err(divergence) ==> divergence == if reported_view(reference@) != reported_view(
            node@,
        ) {
            ResourceDivergence::Reported
        } else {
            ResourceDivergence::Report
        },
{
    if !same_reports(reference, node) {
        return Err(ResourceDivergence::Reported);
    }
    match expected {
        Some(reply) => {
            if node.len() != 1 || !node[0].same(reply) {
                proof {
                    if node@.len() == 1 {
                        assert(reported_view(node@)[0] != seq![reply@][0]);
                    } else {
                        assert(reported_view(node@).len() != seq![reply@].len());
                    }
                }
                return Err(ResourceDivergence::Report);
            }
            assert(reported_view(node@) =~= seq![reply@]);
        },
        None => {
            if node.len() != 0 {
                assert(reported_view(node@).len() != 0);
                return Err(ResourceDivergence::Report);
            }
            assert(reported_view(node@) =~= Seq::empty());
        },
    }
    Ok(())
}

/// What both sides say of their own resources.
#[derive(Debug)]
pub struct ListsSeen {
    /// Resources the node holds.
    pub resources: usize,
    /// How many it can hold.
    pub resource_capacity: usize,
    /// Requests the node has outstanding.
    pub requests: usize,
    /// How many it can have.
    pub request_capacity: usize,
    /// How many names the reference publishes.
    pub reference_publishers: usize,
    /// How many it subscribes to.
    pub reference_subscribers: usize,
    /// How many names the node says it publishes.
    pub node_publisher_count: usize,
    /// How many it says it subscribes to.
    pub node_subscriber_count: usize,
    /// The names the node publishes.
    pub node_publishers: Vec<Vec<u8>>,
    /// The names it subscribes to.
    pub node_subscribers: Vec<Vec<u8>>,
    /// The reply the reference would give.
    pub reference_body: Vec<u8>,
    /// The reply the node would give.
    pub node_body: Vec<u8>,
    /// The reply the model's lists encode to.
    pub expected_body: Vec<u8>,
}

/// The first thing about the lists that is not what the model says.
pub open spec fn lists_verdict(model: Memory, seen: ListsSeen) -> Result<(), ResourceDivergence> {
    if seen.resources >= seen.resource_capacity {
        Err(ResourceDivergence::ResourcesFull)
    } else if seen.requests >= seen.request_capacity {
        Err(ResourceDivergence::RequestsFull)
    } else if seen.reference_publishers != model.publishers.len() {
        Err(ResourceDivergence::Count { kind: ResourceType::Publisher })
    } else if seen.node_publisher_count != seen.reference_publishers {
        Err(ResourceDivergence::NodeCount { kind: ResourceType::Publisher })
    } else if bytes_view(seen.node_publishers@) != model.publishers {
        Err(ResourceDivergence::List { kind: ResourceType::Publisher })
    } else if seen.reference_subscribers != model.subscribers.len() {
        Err(ResourceDivergence::Count { kind: ResourceType::Subscriber })
    } else if seen.node_subscriber_count != seen.reference_subscribers {
        Err(ResourceDivergence::NodeCount { kind: ResourceType::Subscriber })
    } else if bytes_view(seen.node_subscribers@) != model.subscribers {
        Err(ResourceDivergence::List { kind: ResourceType::Subscriber })
    } else if seen.node_body@ != seen.reference_body@ {
        Err(ResourceDivergence::Body)
    } else if seen.node_body@ != seen.expected_body@ {
        Err(ResourceDivergence::BodyExpected)
    } else {
        Ok(())
    }
}

/// Whether both lists are what the model says, on both sides, and so is the
/// reply that carries them. The node has ceilings the reference does not, and
/// reaching one would end the comparison.
pub fn assert_lists(model: &Model, seen: &ListsSeen) -> (r: Result<(), ResourceDivergence>)
    ensures
        r is Ok <==> {
            &&& seen.resources < seen.resource_capacity
            &&& seen.requests < seen.request_capacity
            &&& seen.reference_publishers == model@.publishers.len()
            &&& seen.reference_subscribers == model@.subscribers.len()
            &&& seen.node_publisher_count == seen.reference_publishers
            &&& seen.node_subscriber_count == seen.reference_subscribers
            &&& bytes_view(seen.node_publishers@) == model@.publishers
            &&& bytes_view(seen.node_subscribers@) == model@.subscribers
            &&& seen.node_body@ == seen.reference_body@
            &&& seen.node_body@ == seen.expected_body@
        },
        r == lists_verdict(model@, *seen),
{
    if seen.resources >= seen.resource_capacity {
        return Err(ResourceDivergence::ResourcesFull);
    }
    if seen.requests >= seen.request_capacity {
        return Err(ResourceDivergence::RequestsFull);
    }
    if seen.reference_publishers != model.publishers.len() {
        return Err(ResourceDivergence::Count { kind: ResourceType::Publisher });
    }
    if seen.node_publisher_count != seen.reference_publishers {
        return Err(ResourceDivergence::NodeCount { kind: ResourceType::Publisher });
    }
    if !same_names(seen.node_publishers.as_slice(), model.publishers.as_slice()) {
        return Err(ResourceDivergence::List { kind: ResourceType::Publisher });
    }
    if seen.reference_subscribers != model.subscribers.len() {
        return Err(ResourceDivergence::Count { kind: ResourceType::Subscriber });
    }
    if seen.node_subscriber_count != seen.reference_subscribers {
        return Err(ResourceDivergence::NodeCount { kind: ResourceType::Subscriber });
    }
    if !same_names(seen.node_subscribers.as_slice(), model.subscribers.as_slice()) {
        return Err(ResourceDivergence::List { kind: ResourceType::Subscriber });
    }
    if first_difference(
        seen.node_body.as_slice(),
        seen.reference_body.as_slice(),
    ).is_some() {
        return Err(ResourceDivergence::Body);
    }
    if first_difference(
        seen.node_body.as_slice(),
        seen.expected_body.as_slice(),
    ).is_some() {
        return Err(ResourceDivergence::BodyExpected);
    }
    Ok(())
}

/// As long as every name on a list is long enough, no name a step may look for
/// is read past: the restriction bites only where it was already broken.
pub proof fn law_long_names_are_never_read_past(list: Seq<Seq<u8>>, index: u8)
    requires
        long_enough(list),
    ensures
        !reads_past(list, name_at(index)),
{
}

/// A step that is defined keeps every name long enough, so every step after it
/// is as defined as the first one was.
pub proof fn law_defined_steps_keep_names_long(memory: Memory, index: u8, subscriber: bool)
    requires
        memory.names_long_enough(),
        memory.defined_on(Step::Add { name: index, subscriber }),
    ensures
        memory.advertised(kind(subscriber), name_at(index)).names_long_enough(),
{
}

/// A name that was added is found from then on, and so is every prefix of it.
pub proof fn law_an_added_name_is_found(memory: Memory, kind: ResourceType, name: Seq<u8>, n: int)
    requires
        0 <= n <= name.len(),
    ensures
        found(memory.advertised(kind, name).list(kind), name.take(n)),
{
    let after = memory.advertised(kind, name).list(kind);
    if found(memory.list(kind), name) {
        let i = choose|i: int|
            0 <= i < memory.list(kind).len() && starts_with(#[trigger] memory.list(kind)[i], name);
        let stored = memory.list(kind)[i];
        assert(stored.take(n) =~= stored.take(name.len() as int).take(n));
        assert(starts_with(after[i], name.take(n)));
    } else {
        let last = after.len() - 1;
        assert(after[last] == name);
        assert(starts_with(after[last], name.take(n)));
    }
}

/// The empty name is on every list that holds anything.
pub proof fn law_the_empty_name_is_always_found(list: Seq<Seq<u8>>)
    requires
        list.len() > 0,
    ensures
        found(list, name_at(6)),
{
    assert(list[0].take(0) =~= name_at(6));
    assert(starts_with(list[0], name_at(6)));
}

/// An advertisement that is written down is drawn back as it was, and nothing
/// behind it is touched.
pub proof fn law_a_written_add_is_drawn_back(
    name: u8,
    subscriber: bool,
    more: Seq<u8>,
)
    requires
        name < 7,
    ensures
        drawn_step(
            seq![0u8] + (seq![name] + (seq![if subscriber { 1u8 } else { 0u8 }] + more)),
        ) == (Step::Add { name, subscriber }, more),
{
    let f1 = seq![if subscriber { 1u8 } else { 0u8 }];
    let s1 = f1 + more;
    let f0 = seq![name];
    let s0 = f0 + s1;
    law_what_is_written_first_is_drawn_first(f1, more, 0);
    law_what_is_written_first_is_drawn_first(f0, s1, 0);
    law_a_tag_is_one_byte(0u8, 5, s0);
}

/// A lookup that is written down is drawn back as it was.
pub proof fn law_a_written_find_is_drawn_back(
    name: u8,
    subscriber: bool,
    more: Seq<u8>,
)
    requires
        name < 7,
    ensures
        drawn_step(
            seq![1u8] + (seq![name] + (seq![if subscriber { 1u8 } else { 0u8 }] + more)),
        ) == (Step::Find { name, subscriber }, more),
{
    let f1 = seq![if subscriber { 1u8 } else { 0u8 }];
    let s1 = f1 + more;
    let f0 = seq![name];
    let s0 = f0 + s1;
    law_what_is_written_first_is_drawn_first(f1, more, 0);
    law_what_is_written_first_is_drawn_first(f0, s1, 0);
    law_a_tag_is_one_byte(1u8, 5, s0);
}

/// A request that is written down is drawn back as it was.
pub proof fn law_a_written_request_is_drawn_back(
    node: u8,
    report: bool,
    more: Seq<u8>,
)
    requires
        node < 4,
    ensures
        drawn_step(
            seq![2u8] + (seq![node] + (seq![if report { 1u8 } else { 0u8 }] + more)),
        ) == (Step::Request { node, report }, more),
{
    let f1 = seq![if report { 1u8 } else { 0u8 }];
    let s1 = f1 + more;
    let f0 = seq![node];
    let s0 = f0 + s1;
    law_what_is_written_first_is_drawn_first(f1, more, 0);
    law_what_is_written_first_is_drawn_first(f0, s1, 0);
    law_a_tag_is_one_byte(2u8, 5, s0);
}

/// An arriving request that is written down is drawn back as it was.
pub proof fn law_a_written_arrival_is_drawn_back(
    target: u8,
    port: u8,
    more: Seq<u8>,
)
    requires
        target < 4,
        1 <= port <= 2,
    ensures
        drawn_step(
            seq![3u8] + (seq![target] + (seq![port] + more)),
        ) == (Step::Incoming { target, port }, more),
{
    let f1 = seq![port];
    let s1 = f1 + more;
    let f0 = seq![target];
    let s0 = f0 + s1;
    law_what_is_written_first_is_drawn_first(f1, more, 0);
    law_what_is_written_first_is_drawn_first(f0, s1, 0);
    law_a_tag_is_one_byte(3u8, 5, s0);
}

/// A reply that is written down is drawn back as it was.
pub proof fn law_a_written_reply_is_drawn_back(
    from: u8,
    claims: u8,
    port: u8,
    shape: u8,
    more: Seq<u8>,
)
    requires
        from < 4,
        claims < 4,
        1 <= port <= 2,
        shape < 5,
    ensures
        drawn_step(
            seq![4u8] + (seq![from] + (seq![claims] + (seq![port] + (seq![shape] + more)))),
        ) == (Step::Reply { from, claims, port, shape }, more),
{
    let f3 = seq![shape];
    let s3 = f3 + more;
    let f2 = seq![port];
    let s2 = f2 + s3;
    let f1 = seq![claims];
    let s1 = f1 + s2;
    let f0 = seq![from];
    let s0 = f0 + s1;
    law_what_is_written_first_is_drawn_first(f3, more, 0);
    law_what_is_written_first_is_drawn_first(f2, s3, 0);
    law_what_is_written_first_is_drawn_first(f1, s2, 0);
    law_what_is_written_first_is_drawn_first(f0, s1, 0);
    law_a_tag_is_one_byte(4u8, 5, s0);
}

/// A script is its steps one after the other, until the bytes or the steps run
/// out.
pub proof fn law_a_script_is_drawn_step_by_step(s: Seq<u8>, n: nat)
    ensures
        drawn_steps(s, 0) =~= Seq::empty(),
        drawn_steps(Seq::empty(), n) =~= Seq::empty(),
        s.len() > 0 ==> drawn_steps(s, n + 1).len() == 1 + drawn_steps(drawn_step(s).1, n).len()
            && drawn_steps(s, n + 1)[0] == drawn_step(s).0 && drawn_steps(s, n + 1).skip(1)
            =~= drawn_steps(drawn_step(s).1, n),
        drawn_steps(s, n).len() <= n,
        past_steps(s, 0) == s,
        s.len() > 0 ==> past_steps(s, n + 1) == past_steps(drawn_step(s).1, n),
    decreases n,
{
    if s.len() > 0 && n > 0 {
        law_a_script_is_drawn_step_by_step(drawn_step(s).1, (n - 1) as nat);
    }
}

/// Folding a step into the domain keeps what it is and what it says; what has a
/// range is kept up to whole turns of it.
pub proof fn law_folding_keeps_the_step(step: Step)
    ensures
        step.clamped().in_domain(),
        step.in_domain() ==> step.clamped() == step,
        match (step, step.clamped()) {
            (Step::Add { name, subscriber }, Step::Add { name: n, subscriber: s }) => s
                == subscriber && (name - n) % 7 == 0,
            (Step::Find { name, subscriber }, Step::Find { name: n, subscriber: s }) => s
                == subscriber && (name - n) % 7 == 0,
            (Step::Request { node, report }, Step::Request { node: n, report: r }) => r == report
                && (node - n) % 4 == 0,
            (Step::Incoming { target, port }, Step::Incoming { target: t, port: p }) => (target - t)
                % 4 == 0 && (port >= 1 ==> (port - p) % 2 == 0),
            (
                Step::Reply { from, claims, port, shape },
                Step::Reply { from: f, claims: c, port: p, shape: s },
            ) => (from - f) % 4 == 0 && (claims - c) % 4 == 0 && (port >= 1 ==> (port - p) % 2
                == 0) && (shape - s) % 5 == 0,
            _ => false,
        },
{
    crate::diff::domain::law_a_port_is_folded_into_its_range(
        match step {
            Step::Reply { port, .. } => port,
            Step::Incoming { port, .. } => port,
            _ => 0,
        },
        2,
    );
}

/// The names are what they have to be for the comparison to bite: four of full
/// length, none a front of another; two that are fronts of some of those; and
/// the empty one, a front of all.
pub proof fn law_the_names_tell_fronts_from_wholes(a: u8, b: u8)
    requires
        a < 4,
        b < 4,
    ensures
        name_at(a).len() == 12,
        a != b ==> !starts_with(name_at(a), name_at(b)),
        starts_with(name_at(0), name_at(4)),
        starts_with(name_at(1), name_at(5)) && starts_with(name_at(2), name_at(5)),
        !starts_with(name_at(3), name_at(4)) && !starts_with(name_at(3), name_at(5)),
        name_at(4).len() == 7 && name_at(5).len() == 7 && name_at(6).len() == 0,
        starts_with(name_at(a), name_at(6)),
{
    assert(name_at(0).take(7) =~= name_at(4));
    assert(name_at(1).take(7) =~= name_at(5));
    assert(name_at(2).take(7) =~= name_at(5));
    assert(name_at(3).take(7)[0] != name_at(4)[0]);
    assert(name_at(3).take(7)[0] != name_at(5)[0]);
    assert(name_at(a).take(0) =~= name_at(6));
    assert(name_at(a).take(12) =~= name_at(a));
    if a != b {
        assert(name_at(0)[1] == 0x70 && name_at(1)[1] == 0x65 && name_at(2)[1] == 0x65);
        assert(name_at(3)[0] == 0x6e && name_at(0)[0] == 0x73);
        assert(name_at(1)[11] == 0x31 && name_at(2)[11] == 0x32);
    }
}

/// Publishers and subscribers are kept apart: a name advertised as one is not
/// found as the other, and advertising one leaves the other list alone.
pub proof fn law_the_two_lists_are_kept_apart(memory: Memory, name: Seq<u8>)
    ensures
        kind(true) is Subscriber,
        kind(false) is Publisher,
        memory.list(ResourceType::Publisher) == memory.publishers,
        memory.list(ResourceType::Subscriber) == memory.subscribers,
        memory.with(ResourceType::Publisher, name).publishers =~= memory.publishers.push(name),
        memory.with(ResourceType::Publisher, name).subscribers == memory.subscribers,
        memory.with(ResourceType::Subscriber, name).subscribers =~= memory.subscribers.push(name),
        memory.with(ResourceType::Subscriber, name).publishers == memory.publishers,
        memory.with(ResourceType::Publisher, name).requests == memory.requests,
        memory.with(ResourceType::Subscriber, name).requests == memory.requests,
        memory.with(ResourceType::Publisher, name).links == memory.links,
        memory.with(ResourceType::Subscriber, name).links == memory.links,
{
}

/// A name is advertised once: one that is found is not added again, one that
/// is not found is added last, and either way it is then found.
pub proof fn law_a_name_is_advertised_once(memory: Memory, kind: ResourceType, name: Seq<u8>)
    ensures
        found(memory.advertised(kind, name).list(kind), name),
        memory.advertised(kind, name).advertised(kind, name) == memory.advertised(kind, name),
        found(memory.list(kind), name) ==> memory.advertised(kind, name) == memory,
        !found(memory.list(kind), name) ==> memory.advertised(kind, name).list(kind)
            =~= memory.list(kind).push(name),
{
    let after = memory.advertised(kind, name).list(kind);
    if !found(memory.list(kind), name) {
        assert(after.last() == name);
        assert(name.take(name.len() as int) =~= name);
        assert(starts_with(after[after.len() - 1], name));
    }
}

/// A name is found exactly if some stored name starts with it, and a search
/// reads past a stored name exactly if one shorter than it is reached before
/// one that matches.
pub proof fn law_a_name_is_found_by_its_front(list: Seq<Seq<u8>>, name: Seq<u8>, at: int)
    requires
        0 <= at < list.len(),
    ensures
        (exists|tail: Seq<u8>| list[at] == name + tail) ==> found(list, name),
        found(list, name) ==> exists|i: int, tail: Seq<u8>|
            0 <= i < list.len() && #[trigger] list[i] == #[trigger] (name + tail),
        at == 0 && list[0].len() < name.len() ==> reads_past(list, name),
        at == 0 && starts_with(list[0], name) ==> !reads_past(list, name),
        (forall|i: int| 0 <= i < list.len() ==> (#[trigger] list[i]).len() >= name.len())
            ==> !reads_past(list, name),
{
    if exists|tail: Seq<u8>| list[at] == name + tail {
        let tail = choose|tail: Seq<u8>| list[at] == name + tail;
        assert((name + tail).take(name.len() as int) =~= name);
        assert(starts_with(list[at], name));
    }
    if found(list, name) {
        let i = choose|i: int| 0 <= i < list.len() && starts_with(#[trigger] list[i], name);
        let tail = list[i].skip(name.len() as int);
        assert(list[i] =~= name + tail);
    }
    if at == 0 && starts_with(list[0], name) {
        if reads_past(list, name) {
            let i = choose|i: int|
                {
                    &&& 0 <= i < list.len()
                    &&& (#[trigger] list[i]).len() < name.len()
                    &&& forall|j: int| 0 <= j < i ==> !starts_with(#[trigger] list[j], name)
                };
            assert(!starts_with(list[0], name));
        }
    }
}

/// A step is left out only for what the reference would read out of bounds:
/// nothing but adding or finding a name ever is.
pub proof fn law_only_names_are_ever_left_out(memory: Memory, step: Step)
    ensures
        step is Request || step is Incoming || step is Reply ==> memory.defined_on(step),
        step matches Step::Find { name, subscriber } ==> (memory.defined_on(step)
            <==> !reads_past(
            if subscriber { memory.subscribers } else { memory.publishers },
            name_at(name),
        )),
        step matches Step::Add { name, subscriber } ==> (memory.defined_on(step) ==> {
            let list = if subscriber { memory.subscribers } else { memory.publishers };
            !reads_past(list, name_at(name)) && (name_at(name).len() >= RESOURCE_LEN || found(
                list,
                name_at(name),
            ))
        }),
        step matches Step::Add { name, subscriber } ==> (name < 4 && long_enough(
            memory.publishers,
        ) && long_enough(memory.subscribers) ==> memory.defined_on(step)),
        memory.names_long_enough() <==> long_enough(memory.publishers) && long_enough(
            memory.subscribers,
        ),
{
    if step is Add && step->Add_name < 4 {
        law_the_names_tell_fronts_from_wholes(step->Add_name, 0);
    }
}

/// A request is awaited as long as one under its key is outstanding; the first
/// is the one that is answered, and the others stay.
pub proof fn law_the_oldest_request_under_a_key_is_answered(
    memory: Memory,
    key: u32,
    index: int,
    other: int,
)
    requires
        memory.first(key, index),
    ensures
        memory.awaits(key),
        memory.requests[index].0 == key,
        0 <= other < memory.requests.len() && memory.requests[other].0 == key ==> index <= other,
        memory.without(index).requests =~= memory.requests.take(index) + memory.requests.skip(
            index + 1,
        ),
        memory.without(index).publishers == memory.publishers,
        memory.without(index).subscribers == memory.subscribers,
        memory.without(index).links == memory.links.without(index),
{
}

/// Every shape of reply is its own, and lists names the comparison knows: none,
/// one publisher, one subscriber, two and one, one and three.
pub proof fn law_each_shape_of_reply_is_its_own(a: u8, b: u8)
    requires
        a < 5,
        b < 5,
    ensures
        shape_publishers(a) == shape_publishers(b) && shape_subscribers(a) == shape_subscribers(b)
            ==> a == b,
        shape_publishers(0).len() == 0 && shape_subscribers(0).len() == 0,
        shape_publishers(1) =~= seq![0u8] && shape_subscribers(1).len() == 0,
        shape_publishers(2).len() == 0 && shape_subscribers(2) =~= seq![1u8],
        shape_publishers(3) =~= seq![0u8, 1] && shape_subscribers(3) =~= seq![2u8],
        shape_publishers(4) =~= seq![3u8] && shape_subscribers(4) =~= seq![0u8, 1, 2],
        forall|i: int|
            0 <= i < shape_publishers(a).len() ==> names_at(shape_publishers(a))[i] == name_at(
                #[trigger] shape_publishers(a)[i],
            ),
{
    assert(shape_publishers(3).len() == 2);
    if shape_publishers(1) == shape_publishers(4) {
        assert(shape_publishers(1)[0] == shape_publishers(4)[0]);
    }
}

/// What the reference built itself is picked out by its type and by the node id
/// in its source address, all of it and nothing else, in order.
pub proof fn law_what_the_reference_built_is_picked_out(
    frames: Seq<Captured>,
    types: Seq<Option<MessageType>>,
    frame: Captured,
    message_type: Option<MessageType>,
)
    requires
        frames.len() == types.len(),
    ensures
        all_built(frames.push(frame), types.push(message_type)) =~= if built(
            frame.1@,
            message_type,
        ) {
            all_built(frames, types).push((frame.0, frame.1@))
        } else {
            all_built(frames, types)
        },
        built(frame.1@, message_type) ==> message_type == Some(MessageType::ResourceTableRequest)
            || message_type == Some(MessageType::ResourceTableReply),
        built(frame.1@, message_type) ==> frame.1@.len() >= 38 && crate::bytes::be(
            frame.1@.subrange(30, 38),
        ) == 0xC0FF_EE00_1234_5678,
        all_built(Seq::empty(), types).len() == 0,
{
    let longer = frames.push(frame);
    assert(longer.drop_last() =~= frames);
    assert(types.take(frames.len() as int) =~= types.push(message_type).take(frames.len() as int));
    lemma_types_past_the_frames_do_not_matter(frames, types, types.push(message_type));
    if built(frame.1@, message_type) {
        reveal_with_fuel(crate::bytes::be, 9);
        let id = frame.1@.subrange(30, 38);
        assert(id =~= seq![0xC0u8, 0xFF, 0xEE, 0x00, 0x12, 0x34, 0x56, 0x78]);
        let wanted = seq![0xC0u8, 0xFF, 0xEE, 0x00, 0x12, 0x34, 0x56, 0x78];
        assert(wanted.drop_last() =~= seq![0xC0u8, 0xFF, 0xEE, 0x00, 0x12, 0x34, 0x56]);
        assert(seq![0xC0u8, 0xFF, 0xEE, 0x00, 0x12, 0x34, 0x56].drop_last() =~= seq![
            0xC0u8,
            0xFF,
            0xEE,
            0x00,
            0x12,
            0x34,
        ]);
        assert(seq![0xC0u8, 0xFF, 0xEE, 0x00, 0x12, 0x34].drop_last() =~= seq![
            0xC0u8,
            0xFF,
            0xEE,
            0x00,
            0x12,
        ]);
        assert(seq![0xC0u8, 0xFF, 0xEE, 0x00, 0x12].drop_last() =~= seq![0xC0u8, 0xFF, 0xEE, 0x00]);
        assert(seq![0xC0u8, 0xFF, 0xEE, 0x00].drop_last() =~= seq![0xC0u8, 0xFF, 0xEE]);
        assert(seq![0xC0u8, 0xFF, 0xEE].drop_last() =~= seq![0xC0u8, 0xFF]);
        assert(seq![0xC0u8, 0xFF].drop_last() =~= seq![0xC0u8]);
        assert(seq![0xC0u8].drop_last() =~= Seq::<u8>::empty());
    }
}

/// Types past the last frame do not matter.
proof fn lemma_types_past_the_frames_do_not_matter(
    frames: Seq<Captured>,
    a: Seq<Option<MessageType>>,
    b: Seq<Option<MessageType>>,
)
    requires
        frames.len() <= a.len(),
        frames.len() <= b.len(),
        a.take(frames.len() as int) == b.take(frames.len() as int),
    ensures
        all_built(frames, a) == all_built(frames, b),
    decreases frames.len(),
{
    if frames.len() > 0 {
        let n = frames.len() - 1;
        assert(a.take(n + 1)[n] == b.take(n + 1)[n]);
        assert(a.take(n) =~= a.take(n + 1).take(n));
        assert(b.take(n) =~= b.take(n + 1).take(n));
        lemma_types_past_the_frames_do_not_matter(frames.drop_last(), a, b);
    }
}

/// Lists agree exactly if there was room to tell, both sides hold what the
/// model holds, name for name and count for count, and would answer with the
/// same bytes, which are the expected ones. What is faulted is really wrong.
pub proof fn law_lists_are_faulted_for_what_is_wrong(model: Memory, seen: ListsSeen)
    ensures
        match lists_verdict(model, seen) {
            Ok(()) => {
                &&& seen.resources < seen.resource_capacity
                &&& seen.requests < seen.request_capacity
                &&& seen.reference_publishers == model.publishers.len()
                &&& seen.reference_subscribers == model.subscribers.len()
                &&& seen.node_publisher_count == model.publishers.len()
                &&& seen.node_subscriber_count == model.subscribers.len()
                &&& bytes_view(seen.node_publishers@) == model.publishers
                &&& bytes_view(seen.node_subscribers@) == model.subscribers
                &&& seen.node_body@ == seen.reference_body@
                &&& seen.node_body@ == seen.expected_body@
            },
            Err(ResourceDivergence::ResourcesFull) => seen.resources >= seen.resource_capacity,
            Err(ResourceDivergence::RequestsFull) => seen.requests >= seen.request_capacity,
            Err(ResourceDivergence::Count { kind }) => match kind {
                ResourceType::Publisher => seen.reference_publishers != model.publishers.len(),
                ResourceType::Subscriber => seen.reference_subscribers
                    != model.subscribers.len(),
            },
            Err(ResourceDivergence::NodeCount { kind }) => match kind {
                ResourceType::Publisher => seen.node_publisher_count
                    != seen.reference_publishers,
                ResourceType::Subscriber => seen.node_subscriber_count
                    != seen.reference_subscribers,
            },
            Err(ResourceDivergence::List { kind }) => match kind {
                ResourceType::Publisher => bytes_view(seen.node_publishers@)
                    != model.publishers,
                ResourceType::Subscriber => bytes_view(seen.node_subscribers@)
                    != model.subscribers,
            },
            Err(ResourceDivergence::Body) => seen.node_body@ != seen.reference_body@,
            Err(ResourceDivergence::BodyExpected) => seen.node_body@ != seen.expected_body@,
            _ => false,
        },
{
}

/// Two reports look the same only if they are of the same node, with the same
/// names in the same order.
pub proof fn law_reports_are_told_apart(a: Reported, b: Reported)
    ensures
        a@ == b@ ==> a.node_id == b.node_id && a.publishers@.len() == b.publishers@.len()
            && a.subscribers@.len() == b.subscribers@.len() && (forall|i: int|
            0 <= i < a.publishers@.len() ==> (#[trigger] a.publishers@[i])@ == b.publishers@[i]@)
            && (forall|i: int|
            0 <= i < a.subscribers@.len() ==> (#[trigger] a.subscribers@[i])@
                == b.subscribers@[i]@),
{
    if a@ == b@ {
        assert(a@.publishers.len() == a.publishers@.len());
        assert(b@.publishers.len() == b.publishers@.len());
        assert(a@.subscribers.len() == a.subscribers@.len());
        assert(b@.subscribers.len() == b.subscribers@.len());
        assert forall|i: int| 0 <= i < a.publishers@.len() implies (
        #[trigger] a.publishers@[i])@ == b.publishers@[i]@ by {
            assert(a@.publishers[i] == b@.publishers[i]);
        }
        assert forall|i: int| 0 <= i < a.subscribers@.len() implies (
        #[trigger] a.subscribers@[i])@ == b.subscribers@[i]@ by {
            assert(a@.subscribers[i] == b@.subscribers[i]);
        }
    }
}

/// Two lists of replies look the same exactly if they are as long and each
/// reply looks as its counterpart does.
pub proof fn law_reports_look_the_same_reply_by_reply(a: Seq<Reported>, b: Seq<Reported>)
    ensures
        reported_view(a) == reported_view(b) <==> a.len() == b.len() && forall|i: int|
            0 <= i < a.len() ==> (#[trigger] a[i])@ == b[i]@,
{
    if reported_view(a) == reported_view(b) {
        assert(reported_view(a).len() == a.len() && reported_view(b).len() == b.len());
        assert forall|i: int| 0 <= i < a.len() implies (#[trigger] a[i])@ == b[i]@ by {
            assert(reported_view(a)[i] == reported_view(b)[i]);
        }
    }
    if a.len() == b.len() && forall|i: int| 0 <= i < a.len() ==> (#[trigger] a[i])@ == b[i]@ {
        assert(reported_view(a) =~= reported_view(b));
    }
}

/// A script may have up to 24 steps, each of which the reference takes.
pub proof fn law_a_script_is_bounded(input: ResourceInput)
    ensures
        input.in_domain() <==> input.steps@.len() <= 24 && forall|i: int|
            0 <= i < input.steps@.len() ==> (#[trigger] input.steps@[i]).in_domain(),
{
}

/// A frame is the reference's own exactly if it is long enough for a source
/// address and that address ends in the reference's node id, most significant
/// byte first.
pub proof fn law_an_own_frame_ends_its_source_in_the_node_id(frame: Seq<u8>)
    ensures
        ours(frame) <==> {
            &&& frame.len() >= 38
            &&& frame[30] == 0xC0 && frame[31] == 0xFF && frame[32] == 0xEE && frame[33] == 0x00
            &&& frame[34] == 0x12 && frame[35] == 0x34 && frame[36] == 0x56 && frame[37] == 0x78
        },
        NODE_ID == 0xC0FF_EE00_1234_5678,
{
    if frame.len() >= 38 {
        let tail = frame.subrange(30, 38);
        let id = seq![0xC0u8, 0xFF, 0xEE, 0x00, 0x12, 0x34, 0x56, 0x78];
        assert forall|i: int| 0 <= i < 8 implies #[trigger] tail[i] == frame[30 + i] by {}
        assert(tail[0] == frame[30] && tail[1] == frame[31] && tail[2] == frame[32] && tail[3]
            == frame[33] && tail[4] == frame[34] && tail[5] == frame[35] && tail[6] == frame[36]
            && tail[7] == frame[37]);
        if tail[0] == 0xC0 && tail[1] == 0xFF && tail[2] == 0xEE && tail[3] == 0x00 && tail[4]
            == 0x12 && tail[5] == 0x34 && tail[6] == 0x56 && tail[7] == 0x78 {
            assert(tail =~= id);
        }
    }
}

/// A key is awaited exactly while a request under it is outstanding: nothing is
/// at first, and one more request makes its own key awaited and no other.
pub proof fn law_only_asked_keys_are_awaited(memory: Memory, added: Memory, request: (u32, bool), key: u32)
    requires
        added.requests == memory.requests.push(request),
    ensures
        memory.requests.len() == 0 ==> !memory.awaits(key),
        added.awaits(key) <==> key == request.0 || memory.awaits(key),
{
    let n = memory.requests.len() as int;
    assert(added.requests[n] == request);
    if memory.awaits(key) {
        let i = choose|i: int|
            0 <= i < memory.requests.len() && (#[trigger] memory.requests[i]).0 == key;
        assert(added.requests[i].0 == key);
    }
    if added.awaits(key) {
        let i = choose|i: int|
            0 <= i < added.requests.len() && (#[trigger] added.requests[i]).0 == key;
        if i < n {
            assert(memory.requests[i].0 == key);
        }
    }
}

} // verus!
