//! Comparing neighbour tables: which neighbours two nodes know, and what they
//! announce as neighbours appear and fall silent.
use vstd::arithmetic::div_mod::lemma_small_mod;
use vstd::prelude::*;

use crate::bytes::{law_le_bytes_fit, le, le_bytes, shorter};
use crate::diff::domain::{fold_port, folded_port, Domain};
use crate::diff::stack::NUM_PORTS;
use crate::fuzz::{
    draw_bool, draw_u32, draw_u64, draw_u8, is_empty, law_what_is_written_first_is_drawn_first,
    odd, padded, rest, source, unread,
};
use crate::message::Heartbeat;
use arbitrary::Unstructured;

verus! {

/// Capacity of the node's table. With one neighbour per port and two ports
/// nothing fills it.
pub const CAPACITY: usize = 8;

/// The node ids a heartbeat may come from.
///
/// Node id 0 never matches a neighbour, so a node that sends from it is new
/// with every heartbeat.
pub const NODE_IDS: [u64; 4] = [
    0,
    0x0000_0000_55AA_0011,
    0x0000_0000_55AA_0022,
    0xDEAD_BEEF_1234_5678,
];

/// Longest a single step may push the clock.
///
/// Every timer that is due fires as the clock advances, so an unbounded
/// advance would be an unbounded loop.
pub const MAX_ADVANCE_MS: u32 = 60_000;

/// Most steps a single input may carry.
pub const MAX_STEPS: usize = 32;

/// One thing that happens to the table.
#[derive(Debug, Clone, Copy, PartialEq, Eq, Structural)]
pub enum Step {
    /// A heartbeat arrives.
    Heartbeat {
        /// The sender, by its place in [`NODE_IDS`].
        node: u8,
        /// Ingress port, 1..=[`NUM_PORTS`].
        port: u8,
        /// How long the sender claims to be up.
        uptime_us: u64,
        /// How long the sender says it may stay silent.
        lease_s: u32,
    },
    /// Time passes.
    Advance {
        /// Milliseconds, at most [`MAX_ADVANCE_MS`].
        ms: u32,
    },
}

impl Step {
    /// Whether every part is in range.
    pub open spec fn in_domain(self) -> bool {
        match self {
            Step::Heartbeat { node, port, .. } => node < 4 && 1 <= port <= NUM_PORTS,
            Step::Advance { ms } => ms <= MAX_ADVANCE_MS,
        }
    }

    /// The step with every part folded into range.
    pub open spec fn clamped(self) -> Step {
        match self {
            Step::Heartbeat { node, port, uptime_us, lease_s } => Step::Heartbeat {
                node: node % 4,
                port: folded_port(port, NUM_PORTS),
                uptime_us,
                lease_s,
            },
            Step::Advance { ms } => Step::Advance { ms: (ms % 60_001) },
        }
    }

    /// Fold every part into range.
    #[must_use]
    pub fn clamp(self) -> (r: Step)
        ensures
            r == self.clamped(),
            r.in_domain(),
            self.in_domain() ==> r == self,
    {
        let folded = match self {
            Step::Heartbeat { node, port, uptime_us, lease_s } => Step::Heartbeat {
                node: node % 4,
                port: fold_port(port, NUM_PORTS),
                uptime_us,
                lease_s,
            },
            Step::Advance { ms } => Step::Advance { ms: ms % (MAX_ADVANCE_MS + 1) },
        };
        proof {
            if self.in_domain() {
                match self {
                    Step::Heartbeat { node, .. } => lemma_small_mod(node as nat, 4),
                    Step::Advance { ms } => lemma_small_mod(ms as nat, 60_001),
                }
            }
        }
        folded
    }
}

/// One step drawn from `s`, and what that leaves.
pub open spec fn drawn_step(s: Seq<u8>) -> (Step, Seq<u8>) {
    let s1 = rest(s, 1);
    if odd(s) {
        let s2 = rest(s1, 1);
        let s3 = rest(s2, 1);
        let s4 = rest(s3, 8);
        (
            Step::Heartbeat {
                node: padded(s1, 1)[0],
                port: padded(s2, 1)[0],
                uptime_us: le(padded(s3, 8)) as u64,
                lease_s: le(padded(s4, 4)) as u32,
            }.clamped(),
            rest(s4, 4),
        )
    } else {
        (Step::Advance { ms: le(padded(s1, 4)) as u32 }.clamped(), rest(s1, 4))
    }
}

/// One step, drawn as [`drawn_step`] says.
pub fn arbitrary_step(u: &mut Unstructured<'_>) -> (r: Step)
    ensures
        (r, unread(final(u))) == drawn_step(unread(old(u))),
        r.in_domain(),
{
    let step = if draw_bool(u) {
        let node = draw_u8(u);
        let port = draw_u8(u);
        let uptime_us = draw_u64(u);
        let lease_s = draw_u32(u);
        Step::Heartbeat { node, port, uptime_us, lease_s }
    } else {
        Step::Advance { ms: draw_u32(u) }
    };
    step.clamp()
}

/// Up to `n` steps drawn from `s`, as long as there are bytes.
pub open spec fn drawn_steps(s: Seq<u8>, n: nat) -> Seq<Step>
    decreases n,
{
    if s.len() == 0 || n == 0 {
        Seq::empty()
    } else {
        let (step, left) = drawn_step(s);
        seq![step] + drawn_steps(left, (n - 1) as nat)
    }
}

/// What drawing up to `n` steps leaves of `s`.
pub open spec fn past_steps(s: Seq<u8>, n: nat) -> Seq<u8>
    decreases n,
{
    if s.len() == 0 || n == 0 {
        s
    } else {
        past_steps(drawn_step(s).1, (n - 1) as nat)
    }
}

/// A sequence of steps applied to both tables.
#[derive(Debug)]
pub struct NeighborInput {
    /// The steps, at most [`MAX_STEPS`].
    pub steps: Vec<Step>,
}

impl Domain for NeighborInput {
    open spec fn in_domain(&self) -> bool {
        &&& self.steps@.len() <= MAX_STEPS
        &&& forall|i: int| 0 <= i < self.steps@.len() ==> (#[trigger] self.steps@[i]).in_domain()
    }

    fn clamp_to_domain(&mut self)
        ensures
            final(self).steps@.len() == shorter(old(self).steps@.len(), MAX_STEPS as nat),
            forall|i: int|
                0 <= i < final(self).steps@.len() ==> #[trigger] final(self).steps@[i] == old(
                    self,
                ).steps@[i].clamped(),
    {
        self.steps.truncate(MAX_STEPS);
        let mut index: usize = 0;
        while index < self.steps.len()
            invariant
                index <= self.steps@.len() <= MAX_STEPS,
                self.steps@.len() == shorter(old(self).steps@.len(), MAX_STEPS as nat),
                forall|i: int|
                    0 <= i < index ==> #[trigger] self.steps@[i] == old(self).steps@[i].clamped()
                        && self.steps@[i].in_domain(),
                forall|i: int|
                    index <= i < self.steps@.len() ==> #[trigger] self.steps@[i] == old(
                        self,
                    ).steps@[i],
            decreases self.steps@.len() - index,
        {
            let step = self.steps[index].clamp();
            self.steps.set(index, step);
            index = index + 1;
        }
    }
}

impl NeighborInput {
    /// Draw a script.
    pub fn arbitrary(u: &mut Unstructured<'_>) -> (r: Self)
        ensures
            r.steps@ == drawn_steps(unread(old(u)), MAX_STEPS as nat),
            unread(final(u)) == past_steps(unread(old(u)), MAX_STEPS as nat),
            r.in_domain(),
    {
        let mut steps: Vec<Step> = Vec::new();
        let ghost all = drawn_steps(unread(u), MAX_STEPS as nat);
        while !is_empty(u) && steps.len() < MAX_STEPS
            invariant
                steps@.len() <= MAX_STEPS,
                forall|i: int| 0 <= i < steps@.len() ==> (#[trigger] steps@[i]).in_domain(),
                steps@ + drawn_steps(unread(u), (MAX_STEPS - steps@.len()) as nat) =~= all,
                past_steps(unread(u), (MAX_STEPS - steps@.len()) as nat) == past_steps(
                    unread(old(u)),
                    MAX_STEPS as nat,
                ),
            decreases MAX_STEPS - steps@.len(),
        {
            let ghost before = steps@;
            let ghost s = unread(u);
            steps.push(arbitrary_step(u));
            assert(steps@ + drawn_steps(unread(u), (MAX_STEPS - steps@.len()) as nat) =~= before
                + drawn_steps(s, (MAX_STEPS - before.len()) as nat));
        }
        NeighborInput { steps }
    }

    /// The script a seed file holds.
    pub fn from_seed(seed: &[u8]) -> (r: Self)
        ensures
            r.steps@ == drawn_steps(seed@, MAX_STEPS as nat),
            r.in_domain(),
    {
        let mut u = source(seed);
        NeighborInput::arbitrary(&mut u)
    }
}

/// The heartbeat a step sends.
#[must_use]
pub fn heartbeat(uptime_us: u64, lease_s: u32) -> (r: Heartbeat)
    ensures
        r == (Heartbeat { time_since_boot_us: uptime_us, liveliness_lease_dur_s: lease_s }),
{
    Heartbeat { time_since_boot_us: uptime_us, liveliness_lease_dur_s: lease_s }
}

/// What was announced since it was last asked.
#[derive(Debug, Clone, Copy, PartialEq, Eq, Structural)]
pub struct Discoveries {
    /// How often a neighbour appeared, reappeared or restarted.
    pub appeared: u32,
    /// How often a neighbour's lease ran out.
    pub lost: u32,
}

impl Default for Discoveries {
    fn default() -> (r: Self)
        ensures
            r == (Discoveries { appeared: 0, lost: 0 }),
    {
        Discoveries { appeared: 0, lost: 0 }
    }
}

impl Discoveries {
    /// One announcement.
    pub fn announce(&mut self, discovered: bool)
        requires
            discovered ==> old(self).appeared < u32::MAX,
            !discovered ==> old(self).lost < u32::MAX,
        ensures
            discovered ==> *final(self) == (Discoveries {
                appeared: (old(self).appeared + 1) as u32,
                ..*old(self)
            }),
            !discovered ==> *final(self) == (Discoveries {
                lost: (old(self).lost + 1) as u32,
                ..*old(self)
            }),
    {
        if discovered {
            self.appeared = self.appeared + 1;
        } else {
            self.lost = self.lost + 1;
        }
    }

    /// What was announced, which starts the count anew.
    #[must_use]
    pub fn take(&mut self) -> (r: Discoveries)
        ensures
            r == *old(self),
            *final(self) == (Discoveries { appeared: 0, lost: 0 }),
    {
        let seen = *self;
        *self = Discoveries::default();
        seen
    }
}

/// One neighbour, on either side.
#[derive(Debug, Clone, Copy, PartialEq, Eq, Structural)]
pub struct Neighbor {
    /// Who it is.
    pub node_id: u64,
    /// The port it is on.
    pub port: u8,
    /// When it was last heard.
    pub last_heartbeat_ms: u32,
    /// How long it was up then.
    pub last_time_since_boot_us: u64,
    /// How long it may stay silent.
    pub heartbeat_period_s: u32,
    /// Whether it still counts as there.
    pub online: bool,
}

/// How two tables differ.
#[derive(Debug, Clone, Copy, PartialEq, Eq, Structural)]
pub enum NeighborDivergence {
    /// Injecting a heartbeat moved the clock.
    Clock,
    /// The node's table filled.
    Full,
    /// The tables differ.
    Table {
        /// The first entry that does.
        index: usize,
    },
    /// The announcements differ.
    Discoveries,
}

/// Where two tables part: everything before agrees, and there the neighbours
/// differ or one of the tables has ended.
pub open spec fn tables_part(
    reference: Seq<Neighbor>,
    node: Seq<Neighbor>,
    divergence: NeighborDivergence,
) -> bool {
    &&& divergence matches NeighborDivergence::Table { index }
    &&& index <= shorter(reference.len(), node.len())
    &&& reference.take(index as int) == node.take(index as int)
    &&& if index < reference.len() && index < node.len() {
        reference[index as int] != node[index as int]
    } else {
        reference.len() != node.len()
    }
}

/// Compare the two tables, entry by entry.
pub fn compare(reference: &[Neighbor], node: &[Neighbor]) -> (r: Result<(), NeighborDivergence>)
    ensures
        r is Ok <==> reference@ == node@,
        r matches Err(divergence) ==> tables_part(reference@, node@, divergence),
{
    let mut index: usize = 0;
    while index < reference.len() && index < node.len() && reference[index] == node[index]
        invariant
            index <= reference@.len(),
            index <= node@.len(),
            reference@.take(index as int) =~= node@.take(index as int),
        decreases reference@.len() - index,
    {
        index = index + 1;
    }
    if index < reference.len() || index < node.len() {
        proof {
            if reference@ == node@ {
                assert(reference@[index as int] == node@[index as int]);
            }
        }
        return Err(NeighborDivergence::Table { index });
    }
    assert(reference@.take(index as int) =~= reference@);
    assert(node@.take(index as int) =~= node@);
    Ok(())
}

/// What both sides have after one step.
#[derive(Debug)]
pub struct NeighborSeen {
    /// Whether injecting moved the clock.
    pub clock_moved: bool,
    /// Whether the node's table was full.
    pub table_full: bool,
    /// The reference's table, in order.
    pub reference: Vec<Neighbor>,
    /// The node's.
    pub node: Vec<Neighbor>,
    /// What the reference announced.
    pub announced: Discoveries,
    /// What the node announced.
    pub expected: Discoveries,
}

/// Whether both sides have the same table after a step, and announced the same
/// things on the way. The announcements count on their own: that a new
/// neighbour is announced twice shows in no table.
pub fn check_step(seen: &NeighborSeen) -> (r: Result<(), NeighborDivergence>)
    ensures
        r is Ok <==> {
            &&& !seen.clock_moved
            &&& !seen.table_full
            &&& seen.reference@ == seen.node@
            &&& seen.announced == seen.expected
        },
        r == Err::<(), NeighborDivergence>(NeighborDivergence::Clock) <==> seen.clock_moved,
        r == Err::<(), NeighborDivergence>(NeighborDivergence::Full) <==> !seen.clock_moved
            && seen.table_full,
        r == Err::<(), NeighborDivergence>(NeighborDivergence::Discoveries) <==> !seen.clock_moved
            && !seen.table_full && seen.reference@ == seen.node@ && seen.announced
            != seen.expected,
        !seen.clock_moved && !seen.table_full && seen.reference@ != seen.node@ ==> (
        r matches Err(divergence) && tables_part(seen.reference@, seen.node@, divergence)),
{
    if seen.clock_moved {
        return Err(NeighborDivergence::Clock);
    }
    if seen.table_full {
        return Err(NeighborDivergence::Full);
    }
    match compare(seen.reference.as_slice(), seen.node.as_slice()) {
        Ok(()) => {},
        Err(divergence) => return Err(divergence),
    }
    if seen.announced != seen.expected {
        return Err(NeighborDivergence::Discoveries);
    }
    Ok(())
}

/// A heartbeat that is written down is drawn back as it was, and nothing behind
/// it is touched.
pub proof fn law_a_written_heartbeat_is_drawn_back(
    node: u8,
    port: u8,
    uptime_us: u64,
    lease_s: u32,
    more: Seq<u8>,
)
    requires
        node < 4,
        1 <= port <= 2,
    ensures
        drawn_step(
            seq![1u8] + (seq![node] + (seq![port] + (le_bytes(uptime_us as nat, 8) + (le_bytes(lease_s as nat, 4) + more)))),
        ) == (Step::Heartbeat { node, port, uptime_us, lease_s }, more),
{
    broadcast use crate::bytes::lemma_le_bytes_len;

    let f3 = le_bytes(lease_s as nat, 4);
    let s3 = f3 + more;
    let f2 = le_bytes(uptime_us as nat, 8);
    let s2 = f2 + s3;
    let f1 = seq![port];
    let s1 = f1 + s2;
    let f0 = seq![node];
    let s0 = f0 + s1;
    law_what_is_written_first_is_drawn_first(f3, more, 0);
    law_le_bytes_fit(lease_s as nat);
    law_what_is_written_first_is_drawn_first(f2, s3, 0);
    law_le_bytes_fit(uptime_us as nat);
    law_what_is_written_first_is_drawn_first(f1, s2, 0);
    law_what_is_written_first_is_drawn_first(f0, s1, 0);
    law_what_is_written_first_is_drawn_first(seq![1u8], s0, 0);
}

/// A wait that is written down is drawn back as it was.
pub proof fn law_a_written_wait_is_drawn_back(
    ms: u32,
    more: Seq<u8>,
)
    requires
        ms <= 60_000,
    ensures
        drawn_step(
            seq![0u8] + (le_bytes(ms as nat, 4) + more),
        ) == (Step::Advance { ms }, more),
{
    broadcast use crate::bytes::lemma_le_bytes_len;

    let f0 = le_bytes(ms as nat, 4);
    let s0 = f0 + more;
    law_what_is_written_first_is_drawn_first(f0, more, 0);
    law_le_bytes_fit(ms as nat);
    law_what_is_written_first_is_drawn_first(seq![0u8], s0, 0);
}

/// A script is its steps one after the other, until the bytes or the steps run
/// out.
pub proof fn law_a_script_is_drawn_step_by_step(s: Seq<u8>, n: nat)
    ensures
        drawn_steps(s, 0) =~= Seq::empty(),
        drawn_steps(Seq::empty(), n) =~= Seq::empty(),
        s.len() > 0 ==> drawn_steps(s, n + 1).len() == 1 + drawn_steps(drawn_step(s).1, n).len()
            && drawn_steps(s, n + 1)[0] == drawn_step(s).0 && drawn_steps(s, n + 1).skip(1)
            =~= drawn_steps(drawn_step(s).1, n),
        drawn_steps(s, n).len() <= n,
        past_steps(s, 0) == s,
        s.len() > 0 ==> past_steps(s, n + 1) == past_steps(drawn_step(s).1, n),
    decreases n,
{
    if s.len() > 0 && n > 0 {
        law_a_script_is_drawn_step_by_step(drawn_step(s).1, (n - 1) as nat);
    }
}

/// Folding a step into the domain keeps what it is and what it says; the sender
/// and the port are kept up to whole turns of their ranges.
pub proof fn law_folding_keeps_the_step(step: Step)
    ensures
        step.clamped().in_domain(),
        step.in_domain() ==> step.clamped() == step,
        match (step, step.clamped()) {
            (
                Step::Heartbeat { node, port, uptime_us, lease_s },
                Step::Heartbeat { node: n, port: p, uptime_us: u, lease_s: l },
            ) => u == uptime_us && l == lease_s && (node - n) % 4 == 0 && 1 <= p <= 2 && (port
                >= 1 ==> (port - p) % 2 == 0),
            (Step::Advance { ms }, Step::Advance { ms: m }) => (ms - m) % 60_001 == 0,
            _ => false,
        },
{
    crate::diff::domain::law_a_port_is_folded_into_its_range(
        match step {
            Step::Heartbeat { port, .. } => port,
            _ => 0,
        },
        2,
    );
}

/// A difference between two tables is real, and the first: everything before
/// it is the same on both sides, and there the entries differ, or one table
/// has ended and the other has not.
pub proof fn law_a_table_difference_is_real(
    reference: Seq<Neighbor>,
    node: Seq<Neighbor>,
    divergence: NeighborDivergence,
)
    requires
        tables_part(reference, node, divergence),
    ensures
        reference != node,
        divergence matches NeighborDivergence::Table { index } && (forall|i: int|
            0 <= i < index ==> #[trigger] reference[i] == node[i]) && index <= reference.len()
            && index <= node.len() && (index < reference.len() && index < node.len()
            ==> reference[index as int] != node[index as int]),
{
    let index = divergence->index;
    assert forall|i: int| 0 <= i < index implies #[trigger] reference[i] == node[i] by {
        assert(reference.take(index as int)[i] == node.take(index as int)[i]);
    }
}

/// A script may have up to 32 steps, each of which the reference takes.
pub proof fn law_a_script_is_bounded(input: NeighborInput)
    ensures
        input.in_domain() <==> input.steps@.len() <= 32 && forall|i: int|
            0 <= i < input.steps@.len() ==> (#[trigger] input.steps@[i]).in_domain(),
{
}

} // verus!
