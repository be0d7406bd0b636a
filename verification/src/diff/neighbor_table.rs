//! Comparing neighbour-table requests: the request a node sends, the reply it
//! takes for an answer, and the timeout that goes without one.
use vstd::arithmetic::div_mod::lemma_small_mod;
use vstd::prelude::*;

use crate::bytes::{law_le_bytes_fit, le, le_bytes, shorter};
use crate::diff::compare::{
    captures_view, requests_part, same_requests, Captured, RequestDivergence,
};
use crate::diff::domain::{fold_port, folded_port, Domain};
use crate::diff::stack::NUM_PORTS;
use crate::fuzz::{
    draw_bool, draw_in_range, draw_u32, draw_u8, in_range, is_empty, law_a_tag_is_one_byte,
    law_what_is_written_first_is_drawn_first, odd, padded, past_range, rest, source, unread,
};
use crate::message::{NeighborInfo, PortInfo};
use arbitrary::Unstructured;

verus! {

/// The node ids a step may name.
///
/// The last shares its low 32 bits with the second; a target compares whole,
/// so here the two are distinct. Node id 0 is the target of a request nothing
/// can answer, and the target before anything was asked.
pub const NODE_IDS: [u64; 4] = [
    0,
    0x0000_0000_55AA_0011,
    0x0000_0000_55AA_0022,
    0xDEAD_BEEF_55AA_0011,
];

/// Most port or neighbour entries a reply may declare.
pub const MAX_ENTRIES: u8 = 2;

/// Longest a single step may push the clock.
///
/// Every timer that is due fires as the clock advances, so an unbounded
/// advance would be an unbounded loop.
pub const MAX_ADVANCE_MS: u32 = 60_000;

/// Most steps a single input may carry.
pub const MAX_STEPS: usize = 24;

/// One thing that happens to a node.
#[derive(Debug, Clone, Copy, PartialEq, Eq, Structural)]
pub enum Step {
    /// The node asks someone for their neighbour table.
    Request {
        /// Whom, by its place in [`NODE_IDS`].
        node: u8,
        /// Whether anybody wants to hear the answer.
        report: bool,
    },
    /// A neighbour-table reply arrives.
    Reply {
        /// Whose source address it has, by its place in [`NODE_IDS`].
        from: u8,
        /// Whose table the body claims to be, by its place in [`NODE_IDS`];
        /// the answer goes by this one.
        claims: u8,
        /// Ingress port, 1..=[`NUM_PORTS`].
        port: u8,
        /// Port entries the reply carries, at most [`MAX_ENTRIES`].
        ports: u8,
        /// Neighbour entries the reply carries, at most [`MAX_ENTRIES`].
        neighbors: u8,
        /// Varies the entries, so that a second reply differs from the first.
        revision: u8,
    },
    /// Time passes, which is all that fires the timer.
    Advance {
        /// Milliseconds, at most [`MAX_ADVANCE_MS`].
        ms: u32,
    },
}

impl Step {
    /// Whether every part is in range.
    pub open spec fn in_domain(self) -> bool {
        match self {
            Step::Request { node, .. } => node < 4,
            Step::Reply { from, claims, port, ports, neighbors, .. } => from < 4 && claims < 4 && 1
                <= port <= NUM_PORTS && ports <= MAX_ENTRIES && neighbors <= MAX_ENTRIES,
            Step::Advance { ms } => ms <= MAX_ADVANCE_MS,
        }
    }

    /// The step with every part folded into range.
    pub open spec fn clamped(self) -> Step {
        match self {
            Step::Request { node, report } => Step::Request { node: node % 4, report },
            Step::Reply { from, claims, port, ports, neighbors, revision } => Step::Reply {
                from: from % 4,
                claims: claims % 4,
                port: folded_port(port, NUM_PORTS),
                ports: ports % 3,
                neighbors: neighbors % 3,
                revision,
            },
            Step::Advance { ms } => Step::Advance { ms: (ms % 60_001) },
        }
    }

    /// Fold every part into range.
    #[must_use]
    pub fn clamp(self) -> (r: Step)
        ensures
            r == self.clamped(),
            r.in_domain(),
            self.in_domain() ==> r == self,
    {
        let folded = match self {
            Step::Request { node, report } => Step::Request { node: node % 4, report },
            Step::Reply { from, claims, port, ports, neighbors, revision } => Step::Reply {
                from: from % 4,
                claims: claims % 4,
                port: fold_port(port, NUM_PORTS),
                ports: ports % (MAX_ENTRIES + 1),
                neighbors: neighbors % (MAX_ENTRIES + 1),
                revision,
            },
            Step::Advance { ms } => Step::Advance { ms: ms % (MAX_ADVANCE_MS + 1) },
        };
        proof {
            if self.in_domain() {
                match self {
                    Step::Request { node, .. } => lemma_small_mod(node as nat, 4),
                    Step::Reply { from, claims, ports, neighbors, .. } => {
                        lemma_small_mod(from as nat, 4);
                        lemma_small_mod(claims as nat, 4);
                        lemma_small_mod(ports as nat, 3);
                        lemma_small_mod(neighbors as nat, 3);
                    },
                    Step::Advance { ms } => lemma_small_mod(ms as nat, 60_001),
                }
            }
        }
        folded
    }
}

/// One step drawn from `s`, and what that leaves.
pub open spec fn drawn_step(s: Seq<u8>) -> (Step, Seq<u8>) {
    let tag = in_range(s, 0, 2);
    let s1 = past_range(s, 2);
    if tag == 0 {
        let s2 = rest(s1, 1);
        (Step::Request { node: padded(s1, 1)[0], report: odd(s2) }.clamped(), rest(s2, 1))
    } else if tag == 1 {
        let s2 = rest(s1, 1);
        let s3 = rest(s2, 1);
        let s4 = rest(s3, 1);
        let s5 = rest(s4, 1);
        let s6 = rest(s5, 1);
        (
            Step::Reply {
                from: padded(s1, 1)[0],
                claims: padded(s2, 1)[0],
                port: padded(s3, 1)[0],
                ports: padded(s4, 1)[0],
                neighbors: padded(s5, 1)[0],
                revision: padded(s6, 1)[0],
            }.clamped(),
            rest(s6, 1),
        )
    } else {
        (Step::Advance { ms: le(padded(s1, 4)) as u32 }.clamped(), rest(s1, 4))
    }
}

/// One step, drawn as [`drawn_step`] says.
pub fn arbitrary_step(u: &mut Unstructured<'_>) -> (r: Step)
    ensures
        (r, unread(final(u))) == drawn_step(unread(old(u))),
        r.in_domain(),
{
    let step = match draw_in_range(u, 0, 2) {
        0 => {
            let node = draw_u8(u);
            let report = draw_bool(u);
            Step::Request { node, report }
        },
        1 => {
            let from = draw_u8(u);
            let claims = draw_u8(u);
            let port = draw_u8(u);
            let ports = draw_u8(u);
            let neighbors = draw_u8(u);
            let revision = draw_u8(u);
            Step::Reply { from, claims, port, ports, neighbors, revision }
        },
        _ => Step::Advance { ms: draw_u32(u) },
    };
    step.clamp()
}

/// Up to `n` steps drawn from `s`, as long as there are bytes.
pub open spec fn drawn_steps(s: Seq<u8>, n: nat) -> Seq<Step>
    decreases n,
{
    if s.len() == 0 || n == 0 {
        Seq::empty()
    } else {
        let (step, left) = drawn_step(s);
        seq![step] + drawn_steps(left, (n - 1) as nat)
    }
}

/// What drawing up to `n` steps leaves of `s`.
pub open spec fn past_steps(s: Seq<u8>, n: nat) -> Seq<u8>
    decreases n,
{
    if s.len() == 0 || n == 0 {
        s
    } else {
        past_steps(drawn_step(s).1, (n - 1) as nat)
    }
}

/// A sequence of steps applied to both nodes.
#[derive(Debug)]
pub struct NeighborTableInput {
    /// The steps, at most [`MAX_STEPS`].
    pub steps: Vec<Step>,
}

impl Domain for NeighborTableInput {
    open spec fn in_domain(&self) -> bool {
        &&& self.steps@.len() <= MAX_STEPS
        &&& forall|i: int| 0 <= i < self.steps@.len() ==> (#[trigger] self.steps@[i]).in_domain()
    }

    fn clamp_to_domain(&mut self)
        ensures
            final(self).steps@.len() == shorter(old(self).steps@.len(), MAX_STEPS as nat),
            forall|i: int|
                0 <= i < final(self).steps@.len() ==> #[trigger] final(self).steps@[i] == old(
                    self,
                ).steps@[i].clamped(),
    {
        self.steps.truncate(MAX_STEPS);
        let mut index: usize = 0;
        while index < self.steps.len()
            invariant
                index <= self.steps@.len() <= MAX_STEPS,
                self.steps@.len() == shorter(old(self).steps@.len(), MAX_STEPS as nat),
                forall|i: int|
                    0 <= i < index ==> #[trigger] self.steps@[i] == old(self).steps@[i].clamped()
                        && self.steps@[i].in_domain(),
                forall|i: int|
                    index <= i < self.steps@.len() ==> #[trigger] self.steps@[i] == old(
                        self,
                    ).steps@[i],
            decreases self.steps@.len() - index,
        {
            let step = self.steps[index].clamp();
            self.steps.set(index, step);
            index = index + 1;
        }
    }
}

impl NeighborTableInput {
    /// Draw a script.
    pub fn arbitrary(u: &mut Unstructured<'_>) -> (r: Self)
        ensures
            r.steps@ == drawn_steps(unread(old(u)), MAX_STEPS as nat),
            unread(final(u)) == past_steps(unread(old(u)), MAX_STEPS as nat),
            r.in_domain(),
    {
        let mut steps: Vec<Step> = Vec::new();
        let ghost all = drawn_steps(unread(u), MAX_STEPS as nat);
        while !is_empty(u) && steps.len() < MAX_STEPS
            invariant
                steps@.len() <= MAX_STEPS,
                forall|i: int| 0 <= i < steps@.len() ==> (#[trigger] steps@[i]).in_domain(),
                steps@ + drawn_steps(unread(u), (MAX_STEPS - steps@.len()) as nat) =~= all,
                past_steps(unread(u), (MAX_STEPS - steps@.len()) as nat) == past_steps(
                    unread(old(u)),
                    MAX_STEPS as nat,
                ),
            decreases MAX_STEPS - steps@.len(),
        {
            let ghost before = steps@;
            let ghost s = unread(u);
            steps.push(arbitrary_step(u));
            assert(steps@ + drawn_steps(unread(u), (MAX_STEPS - steps@.len()) as nat) =~= before
                + drawn_steps(s, (MAX_STEPS - before.len()) as nat));
        }
        NeighborTableInput { steps }
    }

    /// The script a seed file holds.
    pub fn from_seed(seed: &[u8]) -> (r: Self)
        ensures
            r.steps@ == drawn_steps(seed@, MAX_STEPS as nat),
            r.in_domain(),
    {
        let mut u = source(seed);
        NeighborTableInput::arbitrary(&mut u)
    }
}

/// The port entry at `index` of a reply at `revision`. Nothing ever sets the
/// type.
pub open spec fn port_entry(index: u8, revision: u8) -> PortInfo {
    PortInfo { state: revision.wrapping_add(index) % 2, port_type: 0 }
}

/// The neighbour entry at `index` of a reply at `revision`.
pub open spec fn neighbor_entry(index: u8, revision: u8) -> NeighborInfo {
    NeighborInfo {
        node_id: NODE_IDS[(index.wrapping_add(revision) % 4) as int],
        port: (index % NUM_PORTS + 1) as u8,
        online: revision.wrapping_add(index) % 2,
    }
}

/// The port entries of a reply at `revision`.
#[must_use]
pub fn port_entries(count: u8, revision: u8) -> (r: Vec<PortInfo>)
    ensures
        r@.len() == count,
        forall|i: int| 0 <= i < count ==> #[trigger] r@[i] == port_entry(i as u8, revision),
{
    let mut entries: Vec<PortInfo> = Vec::new();
    let mut index: u8 = 0;
    while index < count
        invariant
            index <= count,
            entries@.len() == index,
            forall|i: int|
                0 <= i < index ==> #[trigger] entries@[i] == port_entry(i as u8, revision),
        decreases count - index,
    {
        entries.push(PortInfo { state: revision.wrapping_add(index) % 2, port_type: 0 });
        index = index + 1;
    }
    entries
}

/// The neighbour entries of a reply at `revision`.
#[must_use]
pub fn neighbor_entries(count: u8, revision: u8) -> (r: Vec<NeighborInfo>)
    ensures
        r@.len() == count,
        forall|i: int| 0 <= i < count ==> #[trigger] r@[i] == neighbor_entry(i as u8, revision),
{
    let mut entries: Vec<NeighborInfo> = Vec::new();
    let mut index: u8 = 0;
    while index < count
        invariant
            index <= count,
            entries@.len() == index,
            forall|i: int|
                0 <= i < index ==> #[trigger] entries@[i] == neighbor_entry(i as u8, revision),
        decreases count - index,
    {
        let which: usize = (index.wrapping_add(revision) % 4) as usize;
        entries.push(
            NeighborInfo {
                node_id: NODE_IDS[which],
                port: index % NUM_PORTS + 1,
                online: revision.wrapping_add(index) % 2,
            },
        );
        index = index + 1;
    }
    entries
}

/// One reply, as either side saw it.
#[derive(Debug, PartialEq, Eq)]
pub struct Reported {
    /// Whose table it claims to be.
    pub node_id: u64,
    /// State and type of each port entry.
    pub ports: Vec<(u8, u8)>,
    /// Node id, port and whether it is online, of each neighbour entry.
    pub neighbors: Vec<(u64, u8, u8)>,
}

/// One reply, as a value.
#[verifier::ext_equal]
pub struct ReportedView {
    /// Whose table it claims to be.
    pub node_id: u64,
    /// State and type of each port entry.
    pub ports: Seq<(u8, u8)>,
    /// Node id, port and whether it is online, of each neighbour entry.
    pub neighbors: Seq<(u64, u8, u8)>,
}

impl View for Reported {
    type V = ReportedView;

    open spec fn view(&self) -> ReportedView {
        ReportedView { node_id: self.node_id, ports: self.ports@, neighbors: self.neighbors@ }
    }
}

impl Reported {
    /// What a reply with these entries reads as.
    #[must_use]
    pub fn of(node_id: u64, ports: &[PortInfo], neighbors: &[NeighborInfo]) -> (r: Self)
        ensures
            r.node_id == node_id,
            r.ports@ == ports@.map_values(|p: PortInfo| (p.state, p.port_type)),
            r.neighbors@ == neighbors@.map_values(|n: NeighborInfo| (n.node_id, n.port, n.online)),
    {
        let mut port_list: Vec<(u8, u8)> = Vec::new();
        let mut index: usize = 0;
        while index < ports.len()
            invariant
                index <= ports@.len(),
                port_list@ =~= ports@.take(index as int).map_values(
                    |p: PortInfo| (p.state, p.port_type),
                ),
            decreases ports@.len() - index,
        {
            port_list.push((ports[index].state, ports[index].port_type));
            index = index + 1;
        }
        let mut neighbor_list: Vec<(u64, u8, u8)> = Vec::new();
        let mut at: usize = 0;
        while at < neighbors.len()
            invariant
                at <= neighbors@.len(),
                neighbor_list@ =~= neighbors@.take(at as int).map_values(
                    |n: NeighborInfo| (n.node_id, n.port, n.online),
                ),
            decreases neighbors@.len() - at,
        {
            let n = neighbors[at];
            neighbor_list.push((n.node_id, n.port, n.online));
            at = at + 1;
        }
        assert(ports@.take(index as int) =~= ports@);
        assert(neighbors@.take(at as int) =~= neighbors@);
        Reported { node_id, ports: port_list, neighbors: neighbor_list }
    }

    /// Whether both sides saw the same reply.
    #[must_use]
    pub fn same(&self, other: &Reported) -> (r: bool)
        ensures
            r <==> self@ == other@,
    {
        if self.node_id != other.node_id || self.ports.len() != other.ports.len()
            || self.neighbors.len() != other.neighbors.len() {
            return false;
        }
        let mut index: usize = 0;
        while index < self.ports.len()
            invariant
                index <= self.ports@.len(),
                self.ports@.len() == other.ports@.len(),
                forall|i: int| 0 <= i < index ==> self.ports@[i] == other.ports@[i],
            decreases self.ports@.len() - index,
        {
            let a = self.ports[index];
            let b = other.ports[index];
            if a.0 != b.0 || a.1 != b.1 {
                assert(self@.ports[index as int] != other@.ports[index as int]);
                return false;
            }
            index = index + 1;
        }
        let mut at: usize = 0;
        while at < self.neighbors.len()
            invariant
                at <= self.neighbors@.len(),
                self.neighbors@.len() == other.neighbors@.len(),
                forall|i: int| 0 <= i < at ==> self.neighbors@[i] == other.neighbors@[i],
            decreases self.neighbors@.len() - at,
        {
            let a = self.neighbors[at];
            let b = other.neighbors[at];
            if a.0 != b.0 || a.1 != b.1 || a.2 != b.2 {
                assert(self@.neighbors[at as int] != other@.neighbors[at as int]);
                return false;
            }
            at = at + 1;
        }
        assert(self@ =~= other@);
        true
    }
}

/// Several replies, as values.
pub open spec fn reported_view(reported: Seq<Reported>) -> Seq<ReportedView> {
    reported.map_values(|r: Reported| r@)
}

/// Whether both sides saw the same replies, in order.
#[must_use]
pub fn same_reports(reference: &[Reported], node: &[Reported]) -> (r: bool)
    ensures
        r <==> reported_view(reference@) == reported_view(node@),
{
    if reference.len() != node.len() {
        assert(reported_view(reference@).len() != reported_view(node@).len());
        return false;
    }
    let mut index: usize = 0;
    while index < reference.len()
        invariant
            index <= reference@.len(),
            reference@.len() == node@.len(),
            forall|i: int| 0 <= i < index ==> (#[trigger] reference@[i])@ == node@[i]@,
        decreases reference@.len() - index,
    {
        if !reference[index].same(&node[index]) {
            assert(reported_view(reference@)[index as int] != reported_view(node@)[index as int]);
            return false;
        }
        index = index + 1;
    }
    assert(reported_view(reference@) =~= reported_view(node@));
    true
}

/// What the reference remembers of the request it sent last.
///
/// This is a belief rather than a reading: the reference offers no look at it.
/// It says why each side did what it did, and being wrong about it is a
/// divergence too.
#[derive(Debug, Clone, Copy, PartialEq, Eq, Structural)]
pub struct Model {
    /// Whom the last request named. Zero before the first one; never cleared.
    pub target_node_id: u64,
    /// Whether anybody waits to hear the answer.
    pub armed: bool,
    /// When the timer was started, while it is running.
    pub started_ms: Option<u32>,
}

impl Default for Model {
    fn default() -> (r: Self)
        ensures
            r == Model::fresh(),
    {
        Model { target_node_id: 0, armed: false, started_ms: None }
    }
}

impl Model {
    /// Before the first request.
    pub open spec fn fresh() -> Model {
        Model { target_node_id: 0, armed: false, started_ms: None }
    }

    /// After a request.
    pub open spec fn recorded(self, now_ms: u32, target_node_id: u64, report: bool) -> Model {
        Model { target_node_id, armed: report, started_ms: Some(now_ms) }
    }

    /// Whether a reply is handed to whoever waits.
    pub open spec fn reports(self, claimed: u64) -> bool {
        self.target_node_id == claimed && self.armed
    }

    /// After a reply: one from the target stops the timer and is heard at most
    /// once, any other changes nothing.
    pub open spec fn accepted(self, claimed: u64) -> Model {
        if self.target_node_id == claimed {
            Model { target_node_id: claimed, armed: false, started_ms: None }
        } else {
            self
        }
    }

    /// Whether the timeout runs, given how long the timer has left.
    pub open spec fn expires(self, remaining_ms: u32) -> bool {
        self.started_ms is Some && remaining_ms == 0
    }

    /// After the clock has advanced: a timer that ran out is not running.
    pub open spec fn advanced(self, remaining_ms: u32) -> Model {
        if self.expires(remaining_ms) {
            Model { started_ms: None, ..self }
        } else {
            self
        }
    }

    /// A request went out.
    pub fn record(&mut self, now_ms: u32, target_node_id: u64, report: bool)
        ensures
            *final(self) == old(self).recorded(now_ms, target_node_id, report),
    {
        self.target_node_id = target_node_id;
        self.armed = report;
        self.started_ms = Some(now_ms);
    }

    /// A reply arrived. Says whether it is handed to whoever waits.
    pub fn accept(&mut self, claimed: u64) -> (r: bool)
        ensures
            r == old(self).reports(claimed),
            *final(self) == old(self).accepted(claimed),
    {
        if self.target_node_id != claimed {
            return false;
        }
        self.started_ms = None;
        let reported = self.armed;
        self.armed = false;
        reported
    }

    /// The clock advanced. `remaining_ms` is how long the timer has left,
    /// which counts for nothing while it is not running. Says whether the
    /// timeout runs.
    pub fn advance(&mut self, remaining_ms: u32) -> (r: bool)
        ensures
            r == old(self).expires(remaining_ms),
            *final(self) == old(self).advanced(remaining_ms),
    {
        if self.started_ms.is_none() {
            return false;
        }
        if remaining_ms != 0 {
            return false;
        }
        self.started_ms = None;
        true
    }
}

/// A request is answered at most once: whatever was taken for its answer, the
/// same reply again goes unheard.
pub proof fn law_a_request_is_answered_once(model: Model, claimed: u64)
    ensures
        !model.accepted(claimed).reports(claimed),
        model.accepted(claimed).accepted(claimed) == model.accepted(claimed),
{
}

/// A timeout runs at most once per request, and not at all once the request
/// is answered.
pub proof fn law_a_timeout_runs_once(model: Model, claimed: u64)
    ensures
        !model.advanced(0).expires(0),
        model.target_node_id == claimed ==> !model.accepted(claimed).expires(0),
{
}

/// Timing out gives up on the timer, not on the answer: a reply after it is
/// still heard.
pub proof fn law_a_late_reply_is_still_heard(model: Model, remaining_ms: u32, claimed: u64)
    ensures
        model.advanced(remaining_ms).reports(claimed) == model.reports(claimed),
{
}

/// Targets compare whole: a reply from a node that shares no more than the low
/// bits of the target's id changes nothing.
pub proof fn law_a_reply_from_another_node_changes_nothing(model: Model, claimed: u64)
    requires
        model.target_node_id != claimed,
    ensures
        model.accepted(claimed) == model,
        !model.reports(claimed),
{
}

/// Asking node 0 and having node 0 answer puts everything back where it
/// started, whatever came before.
pub proof fn law_an_answered_request_to_nobody_resets(model: Model, now_ms: u32)
    ensures
        model.recorded(now_ms, 0, true).reports(0),
        model.recorded(now_ms, 0, true).accepted(0) == Model::fresh(),
{
}

/// What the node remembers of the request it sent last.
#[derive(Debug, Clone, Copy, PartialEq, Eq, Structural)]
pub struct RequesterState {
    /// Whom it named.
    pub target_node_id: u64,
    /// Whether anybody waits to hear the answer.
    pub armed: bool,
    /// How long the timer has left, while it is running.
    pub remaining_ms: Option<u32>,
}

/// How two requesters differ.
#[derive(Debug, Clone, Copy, PartialEq, Eq, Structural)]
pub enum TableDivergence {
    /// The requests differ.
    Requests(RequestDivergence),
    /// The two handed on different replies.
    Reported,
    /// The two timed out a different number of times.
    Timeouts,
    /// A reply was handed on when it should not have been, or the other way
    /// round.
    Report,
    /// A timeout ran when it should not have, or the other way round.
    Timeout,
    /// The node remembers something else.
    State,
}

/// What both sides did in one step, and what was expected of them.
#[derive(Debug)]
pub struct TableSeen {
    /// Whom each request the reference put on the wire names.
    pub targets: Vec<u64>,
    /// Those requests.
    pub copies: Vec<Captured>,
    /// The node's request as it would leave on each of their ports, if it sent
    /// one.
    pub ours: Option<Vec<Captured>>,
    /// The replies the reference handed on.
    pub reference_reported: Vec<Reported>,
    /// The replies the node handed on.
    pub node_reported: Vec<Reported>,
    /// How often the reference timed out.
    pub reference_timeouts: usize,
    /// How often the node did.
    pub node_timeouts: usize,
    /// Whether a reply was to be handed on.
    pub expect_reported: bool,
    /// Whether a timeout was to run.
    pub expect_timeout: bool,
    /// What the node remembers.
    pub state: RequesterState,
    /// How long the reference's timer has left; counts for nothing while it is
    /// not running.
    pub remaining_ms: u32,
}

/// Whether the node remembers what the reference should.
pub open spec fn remembers(model: Model, remaining_ms: u32, state: RequesterState) -> bool {
    &&& state.target_node_id == model.target_node_id
    &&& state.armed == model.armed
    &&& state.remaining_ms == if model.started_ms is Some {
        Some(remaining_ms)
    } else {
        None
    }
}

/// Whether the node remembers what the reference should.
#[must_use]
pub fn same_state(model: &Model, remaining_ms: u32, state: &RequesterState) -> (r: bool)
    ensures
        r <==> remembers(*model, remaining_ms, *state),
{
    let expected = if model.started_ms.is_some() {
        Some(remaining_ms)
    } else {
        None
    };
    let same_timer = match (state.remaining_ms, expected) {
        (Some(a), Some(b)) => a == b,
        (None, None) => true,
        _ => false,
    };
    state.target_node_id == model.target_node_id && state.armed == model.armed && same_timer
}

/// The requests both sides sent in a step are the same.
pub open spec fn asked_alike(seen: TableSeen) -> bool {
    match seen.ours {
        Some(stamped) => {
            &&& seen.targets@.len() == NUM_PORTS
            &&& seen.targets@[0] == seen.targets@[1]
            &&& captures_view(seen.copies@) == captures_view(stamped@)
        },
        None => seen.targets@.len() == 0,
    }
}

/// The first thing a step went differently in.
pub open spec fn steps_part(model: Model, seen: TableSeen, divergence: TableDivergence) -> bool {
    if !asked_alike(seen) {
        divergence matches TableDivergence::Requests(requests) && requests_part(
            seen.targets@,
            seen.copies@,
            match seen.ours {
                Some(stamped) => Some(stamped@),
                None => None,
            },
            NUM_PORTS as nat,
            requests,
        )
    } else if reported_view(seen.reference_reported@) != reported_view(seen.node_reported@) {
        divergence is Reported
    } else if seen.reference_timeouts != seen.node_timeouts {
        divergence is Timeouts
    } else if seen.node_reported@.len() != (if seen.expect_reported {
        1nat
    } else {
        0
    }) {
        divergence is Report
    } else if seen.node_timeouts != (if seen.expect_timeout {
        1nat
    } else {
        0
    }) {
        divergence is Timeout
    } else {
        divergence is State
    }
}

/// Whether both sides did the same in a step: the same request, the same
/// replies handed on, the same timeouts; and whether that is what the model
/// expected of them, and what the node now remembers.
pub fn check_step(model: &Model, seen: &TableSeen) -> (r: Result<(), TableDivergence>)
    ensures
        r is Ok <==> {
            &&& asked_alike(*seen)
            &&& reported_view(seen.reference_reported@) == reported_view(seen.node_reported@)
            &&& seen.reference_timeouts == seen.node_timeouts
            &&& seen.node_reported@.len() == (if seen.expect_reported {
                1nat
            } else {
                0
            })
            &&& seen.node_timeouts == (if seen.expect_timeout {
                1nat
            } else {
                0
            })
            &&& remembers(*model, seen.remaining_ms, seen.state)
        },
        r matches Err(divergence) ==> steps_part(*model, *seen, divergence),
{
    let ours: Option<&[Captured]> = match &seen.ours {
        Some(stamped) => Some(stamped.as_slice()),
        None => None,
    };
    match same_requests(
        seen.targets.as_slice(),
        seen.copies.as_slice(),
        ours,
        NUM_PORTS as usize,
    ) {
        Ok(_) => {},
        Err(divergence) => return Err(TableDivergence::Requests(divergence)),
    }
    if !same_reports(seen.reference_reported.as_slice(), seen.node_reported.as_slice()) {
        return Err(TableDivergence::Reported);
    }
    if seen.reference_timeouts != seen.node_timeouts {
        return Err(TableDivergence::Timeouts);
    }
    let due: usize = if seen.expect_reported {
        1
    } else {
        0
    };
    if seen.node_reported.len() != due {
        return Err(TableDivergence::Report);
    }
    let run: usize = if seen.expect_timeout {
        1
    } else {
        0
    };
    if seen.node_timeouts != run {
        return Err(TableDivergence::Timeout);
    }
    if !same_state(model, seen.remaining_ms, &seen.state) {
        return Err(TableDivergence::State);
    }
    Ok(())
}

/// A request that is written down is drawn back as it was, and nothing behind it
/// is touched.
pub proof fn law_a_written_request_is_drawn_back(
    node: u8,
    report: bool,
    more: Seq<u8>,
)
    requires
        node < 4,
    ensures
        drawn_step(
            seq![0u8] + (seq![node] + (seq![if report { 1u8 } else { 0u8 }] + more)),
        ) == (Step::Request { node, report }, more),
{
    let f1 = seq![if report { 1u8 } else { 0u8 }];
    let s1 = f1 + more;
    let f0 = seq![node];
    let s0 = f0 + s1;
    law_what_is_written_first_is_drawn_first(f1, more, 0);
    law_what_is_written_first_is_drawn_first(f0, s1, 0);
    law_a_tag_is_one_byte(0u8, 3, s0);
}

/// A reply that is written down is drawn back as it was.
pub proof fn law_a_written_reply_is_drawn_back(
    from: u8,
    claims: u8,
    port: u8,
    ports: u8,
    neighbors: u8,
    revision: u8,
    more: Seq<u8>,
)
    requires
        from < 4,
        claims < 4,
        1 <= port <= 2,
        ports <= 2,
        neighbors <= 2,
    ensures
        drawn_step(
            seq![1u8] + (seq![from] + (seq![claims] + (seq![port] + (seq![ports] + (seq![neighbors] + (seq![revision] + more)))))),
        ) == (Step::Reply { from, claims, port, ports, neighbors, revision }, more),
{
    let f5 = seq![revision];
    let s5 = f5 + more;
    let f4 = seq![neighbors];
    let s4 = f4 + s5;
    let f3 = seq![ports];
    let s3 = f3 + s4;
    let f2 = seq![port];
    let s2 = f2 + s3;
    let f1 = seq![claims];
    let s1 = f1 + s2;
    let f0 = seq![from];
    let s0 = f0 + s1;
    law_what_is_written_first_is_drawn_first(f5, more, 0);
    law_what_is_written_first_is_drawn_first(f4, s5, 0);
    law_what_is_written_first_is_drawn_first(f3, s4, 0);
    law_what_is_written_first_is_drawn_first(f2, s3, 0);
    law_what_is_written_first_is_drawn_first(f1, s2, 0);
    law_what_is_written_first_is_drawn_first(f0, s1, 0);
    law_a_tag_is_one_byte(1u8, 3, s0);
}

/// A wait that is written down is drawn back as it was.
pub proof fn law_a_written_wait_is_drawn_back(
    ms: u32,
    more: Seq<u8>,
)
    requires
        ms <= 60_000,
    ensures
        drawn_step(
            seq![2u8] + (le_bytes(ms as nat, 4) + more),
        ) == (Step::Advance { ms }, more),
{
    broadcast use crate::bytes::lemma_le_bytes_len;

    let f0 = le_bytes(ms as nat, 4);
    let s0 = f0 + more;
    law_what_is_written_first_is_drawn_first(f0, more, 0);
    law_le_bytes_fit(ms as nat);
    law_a_tag_is_one_byte(2u8, 3, s0);
}

/// A script is its steps one after the other, until the bytes or the steps run
/// out.
pub proof fn law_a_script_is_drawn_step_by_step(s: Seq<u8>, n: nat)
    ensures
        drawn_steps(s, 0) =~= Seq::empty(),
        drawn_steps(Seq::empty(), n) =~= Seq::empty(),
        s.len() > 0 ==> drawn_steps(s, n + 1).len() == 1 + drawn_steps(drawn_step(s).1, n).len()
            && drawn_steps(s, n + 1)[0] == drawn_step(s).0 && drawn_steps(s, n + 1).skip(1)
            =~= drawn_steps(drawn_step(s).1, n),
        drawn_steps(s, n).len() <= n,
        past_steps(s, 0) == s,
        s.len() > 0 ==> past_steps(s, n + 1) == past_steps(drawn_step(s).1, n),
    decreases n,
{
    if s.len() > 0 && n > 0 {
        law_a_script_is_drawn_step_by_step(drawn_step(s).1, (n - 1) as nat);
    }
}

/// Folding a step into the domain keeps what it is and what it says; what has a
/// range is kept up to whole turns of it.
pub proof fn law_folding_keeps_the_step(step: Step)
    ensures
        step.clamped().in_domain(),
        step.in_domain() ==> step.clamped() == step,
        match (step, step.clamped()) {
            (Step::Request { node, report }, Step::Request { node: n, report: r }) => r == report
                && (node - n) % 4 == 0,
            (
                Step::Reply { from, claims, port, ports, neighbors, revision },
                Step::Reply {
                    from: f,
                    claims: c,
                    port: p,
                    ports: q,
                    neighbors: n,
                    revision: r,
                },
            ) => r == revision && (from - f) % 4 == 0 && (claims - c) % 4 == 0 && (port >= 1 ==> (
            port - p) % 2 == 0) && (ports - q) % 3 == 0 && (neighbors - n) % 3 == 0,
            (Step::Advance { ms }, Step::Advance { ms: m }) => (ms - m) % 60_001 == 0,
            _ => false,
        },
{
    crate::diff::domain::law_a_port_is_folded_into_its_range(
        match step {
            Step::Reply { port, .. } => port,
            _ => 0,
        },
        2,
    );
}

/// Entries vary with the revision, so that no two replies in a row are alike:
/// from one revision to the next every port and every neighbour changes its
/// state, and the neighbours move on by one, while each keeps its port.
pub proof fn law_a_new_revision_changes_every_entry(index: u8, revision: u8)
    requires
        index < 2,
        revision < 200,
    ensures
        port_entry(index, revision).state <= 1,
        port_entry(index, revision).state != port_entry(index, (revision + 1) as u8).state,
        port_entry(index, revision).port_type == 0,
        neighbor_entry(index, revision).online <= 1,
        neighbor_entry(index, revision).online == port_entry(index, revision).state,
        neighbor_entry(index, (revision + 1) as u8).node_id == neighbor_entry(
            (index + 1) as u8,
            revision,
        ).node_id,
        neighbor_entry(index, revision).node_id != neighbor_entry(
            index,
            (revision + 1) as u8,
        ).node_id,
        neighbor_entry(index, revision).port == index + 1,
        revision == 0 ==> neighbor_entry(index, revision).node_id == NODE_IDS@[index as int],
        revision == 0 ==> port_entry(index, revision).state == index,
{
    let at = ((index + revision) % 4) as int;
    assert(NODE_IDS@[0] == 0u64);
    assert(NODE_IDS@[1] == 0x0000_0000_55AA_0011u64);
    assert(NODE_IDS@[2] == 0x0000_0000_55AA_0022u64);
    assert(NODE_IDS@[3] == 0xDEAD_BEEF_55AA_0011u64);
}

/// The requester remembers one request: the last one, whom it asked, when, and
/// whether anybody wants to hear. A node that was not asked is not heard, an
/// answer to a request nobody wants to hear is not reported, and an answer
/// that is reported is reported once.
pub proof fn law_the_requester_hears_whom_it_asked(
    model: Model,
    now_ms: u32,
    target: u64,
    report: bool,
    claimed: u64,
    remaining_ms: u32,
)
    ensures
        ({
            let asked = model.recorded(now_ms, target, report);
            &&& asked.reports(claimed) <==> claimed == target && report
            &&& asked.expires(0)
            &&& remaining_ms > 0 ==> !asked.expires(remaining_ms)
            &&& asked.started_ms == Some(now_ms)
            &&& claimed == target ==> !asked.accepted(claimed).reports(target)
                && !asked.accepted(claimed).expires(0)
            &&& claimed != target ==> asked.accepted(claimed) == asked
            &&& !asked.advanced(0).expires(0)
            &&& asked.advanced(0).reports(claimed) == asked.reports(claimed)
            &&& remaining_ms > 0 ==> asked.advanced(remaining_ms) == asked
        }),
        !Model::fresh().reports(claimed),
        !Model::fresh().expires(0),
        Model::fresh().advanced(0) == Model::fresh(),
{
}

/// A node's own state agrees with the model exactly if it remembers the same
/// request, is as ready to report it, and has as long left to wait, if it
/// waits at all.
pub proof fn law_a_requester_agrees_if_it_remembers_the_same(
    model: Model,
    remaining_ms: u32,
    state: RequesterState,
    other: RequesterState,
)
    ensures
        remembers(model, remaining_ms, state) && remembers(model, remaining_ms, other) ==> state
            == other,
        remembers(model, remaining_ms, state) ==> {
            &&& state.target_node_id == model.target_node_id
            &&& state.armed == model.armed
            &&& state.remaining_ms is Some <==> model.started_ms is Some
            &&& state.remaining_ms matches Some(left) ==> left == remaining_ms
        },
{
}

/// A step's verdict says what is wrong with it: the requests, if the two sides
/// did not ask alike; then what was reported; then the timeouts; and only if
/// all of that is in order whether it was owed, and what is remembered.
pub proof fn law_a_step_is_faulted_for_what_is_wrong(
    model: Model,
    seen: TableSeen,
    divergence: TableDivergence,
)
    requires
        steps_part(model, seen, divergence),
    ensures
        match divergence {
            TableDivergence::Requests(_) => !asked_alike(seen),
            TableDivergence::Reported => reported_view(seen.reference_reported@)
                != reported_view(seen.node_reported@),
            TableDivergence::Timeouts => seen.reference_timeouts != seen.node_timeouts,
            TableDivergence::Report => (seen.node_reported@.len() == 1) != seen.expect_reported
                || seen.node_reported@.len() > 1,
            TableDivergence::Timeout => (seen.node_timeouts == 1) != seen.expect_timeout
                || seen.node_timeouts > 1,
            _ => asked_alike(seen),
        },
        seen.ours is None && seen.targets@.len() == 0 ==> asked_alike(seen),
        seen.ours is None && seen.targets@.len() > 0 ==> !asked_alike(seen),
        seen.ours is Some && seen.targets@.len() != 2 ==> !asked_alike(seen),
{
}

/// Two reports look the same only if they are of the same node, with the same
/// ports and neighbours.
pub proof fn law_reports_are_told_apart(a: Reported, b: Reported)
    ensures
        a@ == b@ <==> a.node_id == b.node_id && a.ports@ == b.ports@ && a.neighbors@
            == b.neighbors@,
{
}

/// A script may have up to 24 steps, each of which the reference takes.
pub proof fn law_a_script_is_bounded(input: NeighborTableInput)
    ensures
        input.in_domain() <==> input.steps@.len() <= 24 && forall|i: int|
            0 <= i < input.steps@.len() ==> (#[trigger] input.steps@[i]).in_domain(),
{
}

} // verus!
