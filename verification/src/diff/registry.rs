//! Comparing packet registries: which number an outgoing message gets, which
//! outstanding request a reply is matched to, which callback sees it, and when
//! an unanswered request is retried or given up on.
//!
//! A script of sends, receives and clock advances is put to both sides, and
//! the stream of callbacks is compared after every step. [`Outstanding`] is
//! what the comparison believes the reference to be holding.
use vstd::prelude::*;

use crate::bytes::{differ_first_at, first_difference, law_le_bytes_fit, le, le_bytes};
use crate::diff::domain::Domain;
use crate::diff::ll::{LinkModel, Links};
use crate::fuzz::{
    draw_bool, draw_u32, draw_u8, is_empty, law_what_is_written_first_is_drawn_first, odd, padded, rest, source, unread,
};
use crate::message::MessageType;
use arbitrary::Unstructured;

verus! {

/// How often the expiry sweep runs.
pub const MESSAGE_TIMER_EXPIRY_PERIOD_MS: u32 = 150;

/// Most steps a single input may carry.
pub const MAX_STEPS: usize = 32;

/// Longest a single [`Step::Advance`] may push the clock.
pub const MAX_ADVANCE_MS: u32 = 1_000;

/// Longest body a step may carry.
pub const MAX_BODY: u8 = 32;

/// How many message types the comparison registers.
pub const REGISTERED_TYPES: usize = 10;

/// Capacity of a type registry: one spare, so that a full registry is never
/// compared against one that cannot fill.
pub const TYPE_CAPACITY: usize = 11;

/// Capacity of an outstanding-request table: one per step.
pub const PENDING_CAPACITY: usize = MAX_STEPS;

/// The number of a type nothing registers.
pub const UNREGISTERED: u16 = 0x4242;

/// How the registry treats a message type.
#[derive(Debug, Clone, Copy, PartialEq, Eq, Structural)]
pub struct PacketCfg {
    /// The type echoes the number of the request it answers.
    pub sequenced_reply: bool,
    /// The type takes the next number and is remembered until answered.
    pub sequenced_request: bool,
}

impl PacketCfg {
    /// Whether sending the type leaves a request outstanding.
    pub open spec fn tracks(self) -> bool {
        self.sequenced_request && !self.sequenced_reply
    }
}

/// The type a step selects, and the configuration it is registered with. The
/// assignment for the configuration types is the reference's own; the
/// last entry sets both flags, which nothing does in practice but the
/// registry allows.
pub open spec fn selected(type_index: u8) -> (MessageType, Option<PacketCfg>) {
    let request = PacketCfg { sequenced_reply: false, sequenced_request: true };
    let reply = PacketCfg { sequenced_reply: true, sequenced_request: false };
    let plain = PacketCfg { sequenced_reply: false, sequenced_request: false };
    let both = PacketCfg { sequenced_reply: true, sequenced_request: true };
    if type_index == 0 {
        (MessageType::ConfigGet, Some(request))
    } else if type_index == 1 {
        (MessageType::ConfigSet, Some(request))
    } else if type_index == 2 {
        (MessageType::ConfigStatusRequest, Some(request))
    } else if type_index == 3 {
        (MessageType::NeighborProtoRequest, Some(request))
    } else if type_index == 4 {
        (MessageType::ConfigValue, Some(reply))
    } else if type_index == 5 {
        (MessageType::ConfigStatusResponse, Some(reply))
    } else if type_index == 6 {
        (MessageType::NeighborProtoReply, Some(reply))
    } else if type_index == 7 {
        (MessageType::ConfigCommit, Some(plain))
    } else if type_index == 8 {
        (MessageType::Heartbeat, Some(plain))
    } else if type_index == 9 {
        (MessageType::NetAssertQuiet, Some(both))
    } else {
        (MessageType::Other(UNREGISTERED), None)
    }
}

/// The type a step selects, and the configuration it is registered with.
#[must_use]
pub fn message_type(type_index: u8) -> (r: (MessageType, Option<PacketCfg>))
    ensures
        r == selected(type_index),
{
    let request = PacketCfg { sequenced_reply: false, sequenced_request: true };
    let reply = PacketCfg { sequenced_reply: true, sequenced_request: false };
    let plain = PacketCfg { sequenced_reply: false, sequenced_request: false };
    let both = PacketCfg { sequenced_reply: true, sequenced_request: true };
    match type_index {
        0 => (MessageType::ConfigGet, Some(request)),
        1 => (MessageType::ConfigSet, Some(request)),
        2 => (MessageType::ConfigStatusRequest, Some(request)),
        3 => (MessageType::NeighborProtoRequest, Some(request)),
        4 => (MessageType::ConfigValue, Some(reply)),
        5 => (MessageType::ConfigStatusResponse, Some(reply)),
        6 => (MessageType::NeighborProtoReply, Some(reply)),
        7 => (MessageType::ConfigCommit, Some(plain)),
        8 => (MessageType::Heartbeat, Some(plain)),
        9 => (MessageType::NetAssertQuiet, Some(both)),
        _ => (MessageType::Other(UNREGISTERED), None),
    }
}

/// Which sequence number a received message carries.
#[derive(Debug, Clone, Copy, PartialEq, Eq, Structural)]
pub enum SeqChoice {
    /// The number of an outstanding request, counted modulo how many there
    /// are; zero when nothing is outstanding.
    Outstanding(u8),
    /// This number.
    Raw(u32),
}

impl SeqChoice {
    /// The number this stands for while `pending` is outstanding.
    pub open spec fn number(self, pending: Seq<u32>) -> u32 {
        match self {
            SeqChoice::Raw(seq_num) => seq_num,
            SeqChoice::Outstanding(which) => if pending.len() == 0 {
                0
            } else {
                pending[which as int % pending.len() as int]
            },
        }
    }

    /// The number this stands for while `pending` is outstanding.
    #[must_use]
    pub fn resolve(self, pending: &[u32]) -> (r: u32)
        ensures
            r == self.number(pending@),
    {
        match self {
            SeqChoice::Raw(seq_num) => seq_num,
            SeqChoice::Outstanding(which) => {
                if pending.len() == 0 {
                    0
                } else {
                    pending[(which as usize) % pending.len()]
                }
            },
        }
    }
}

/// One thing that happens to the registry.
#[allow(inconsistent_fields)]
#[derive(Debug, Clone, Copy, PartialEq, Eq, Structural)]
pub enum Step {
    /// A message is serialised for transmission.
    Send {
        /// Which type; one past the last registered one is [`UNREGISTERED`].
        type_index: u8,
        /// The number a reply type echoes; ignored for anything else.
        reply_seq_num: u32,
        /// Whether the request is given a callback.
        with_callback: bool,
        /// Body length, at most [`MAX_BODY`].
        body_len: u8,
    },
    /// A message arrives.
    Receive {
        /// Which type; one past the last registered one is [`UNREGISTERED`].
        type_index: u8,
        /// The sequence number in its header.
        seq: SeqChoice,
        /// Body length, at most [`MAX_BODY`].
        body_len: u8,
    },
    /// Time passes, and the expiry sweep runs if it comes due.
    Advance {
        /// Milliseconds, at most [`MAX_ADVANCE_MS`].
        ms: u32,
    },
    /// Time passes until the next expiry sweep is exactly this far away. The
    /// sweep's phase outlives every script, so a script that wants to straddle
    /// it cannot get there by advancing a fixed amount.
    AlignBeforeSweep {
        /// How far, 1..=[`MESSAGE_TIMER_EXPIRY_PERIOD_MS`].
        ms: u32,
    },
}

impl Step {
    /// Whether a comparison can perform the step.
    pub open spec fn in_domain(self) -> bool {
        match self {
            Step::Send { type_index, body_len, .. } => type_index <= 10 && body_len <= MAX_BODY,
            Step::Receive { type_index, body_len, .. } => type_index <= 10 && body_len <= MAX_BODY,
            Step::Advance { ms } => ms <= MAX_ADVANCE_MS,
            Step::AlignBeforeSweep { ms } => 1 <= ms <= MESSAGE_TIMER_EXPIRY_PERIOD_MS,
        }
    }

    /// The step with every field folded into its range. An alignment already
    /// in range is left alone.
    pub open spec fn clamped(self) -> Step {
        match self {
            Step::Send { type_index, reply_seq_num, with_callback, body_len } => Step::Send {
                type_index: type_index % 11,
                reply_seq_num,
                with_callback,
                body_len: body_len % 33,
            },
            Step::Receive { type_index, seq, body_len } => Step::Receive {
                type_index: type_index % 11,
                seq,
                body_len: body_len % 33,
            },
            Step::Advance { ms } => Step::Advance { ms: ms % 1_001 },
            Step::AlignBeforeSweep { ms } => Step::AlignBeforeSweep {
                ms: if ms == 0 || ms > MESSAGE_TIMER_EXPIRY_PERIOD_MS {
                    (ms % MESSAGE_TIMER_EXPIRY_PERIOD_MS + 1) as u32
                } else {
                    ms
                },
            },
        }
    }

    /// The step, folded into the domain.
    #[must_use]
    pub fn clamp(self) -> (r: Step)
        ensures
            r == self.clamped(),
            r.in_domain(),
            self.in_domain() ==> r == self,
    {
        match self {
            Step::Send { type_index, reply_seq_num, with_callback, body_len } => Step::Send {
                type_index: type_index % 11,
                reply_seq_num,
                with_callback,
                body_len: body_len % 33,
            },
            Step::Receive { type_index, seq, body_len } => Step::Receive {
                type_index: type_index % 11,
                seq,
                body_len: body_len % 33,
            },
            Step::Advance { ms } => Step::Advance { ms: ms % 1_001 },
            Step::AlignBeforeSweep { ms } => {
                if ms == 0 || ms > MESSAGE_TIMER_EXPIRY_PERIOD_MS {
                    Step::AlignBeforeSweep { ms: ms % MESSAGE_TIMER_EXPIRY_PERIOD_MS + 1 }
                } else {
                    Step::AlignBeforeSweep { ms }
                }
            },
        }
    }
}

/// A step drawn from the front of `s` as fixed-width little-endian fields, and
/// what that leaves.
pub open spec fn drawn_step(s: Seq<u8>) -> (Step, Seq<u8>) {
    let tag = padded(s, 1)[0];
    let s1 = rest(s, 1);
    if tag % 4 == 0 {
        let s2 = rest(s1, 1);
        let s3 = rest(s2, 4);
        let s4 = rest(s3, 1);
        (
            Step::Send {
                type_index: padded(s1, 1)[0],
                reply_seq_num: le(padded(s2, 4)) as u32,
                with_callback: odd(s3),
                body_len: padded(s4, 1)[0],
            }.clamped(),
            rest(s4, 1),
        )
    } else if tag % 4 == 1 {
        let s2 = rest(s1, 1);
        let s3 = rest(s2, 1);
        let (seq, s4) = if odd(s2) {
            (SeqChoice::Outstanding(padded(s3, 1)[0]), rest(s3, 1))
        } else {
            (SeqChoice::Raw(le(padded(s3, 4)) as u32), rest(s3, 4))
        };
        (
            Step::Receive { type_index: padded(s1, 1)[0], seq, body_len: padded(s4, 1)[0] }.clamped(),
            rest(s4, 1),
        )
    } else if tag % 4 == 2 {
        (Step::Advance { ms: le(padded(s1, 4)) as u32 }.clamped(), rest(s1, 4))
    } else {
        (Step::AlignBeforeSweep { ms: le(padded(s1, 4)) as u32 }.clamped(), rest(s1, 4))
    }
}

/// The steps drawn from `s`: up to `n`, and no more once the bytes run out.
pub open spec fn drawn_steps(s: Seq<u8>, n: nat) -> Seq<Step>
    decreases n,
{
    if s.len() == 0 || n == 0 {
        Seq::empty()
    } else {
        let (step, left) = drawn_step(s);
        seq![step] + drawn_steps(left, (n - 1) as nat)
    }
}

/// What drawing up to `n` steps leaves of `s`.
pub open spec fn past_steps(s: Seq<u8>, n: nat) -> Seq<u8>
    decreases n,
{
    if s.len() == 0 || n == 0 {
        s
    } else {
        past_steps(drawn_step(s).1, (n - 1) as nat)
    }
}

/// One step, drawn as [`drawn_step`] says.
pub fn arbitrary_step(u: &mut Unstructured<'_>) -> (r: Step)
    ensures
        (r, unread(final(u))) == drawn_step(unread(old(u))),
        r.in_domain(),
{
    let tag = draw_u8(u);
    let step = match tag % 4 {
        0 => {
            let type_index = draw_u8(u);
            let reply_seq_num = draw_u32(u);
            let with_callback = draw_bool(u);
            let body_len = draw_u8(u);
            Step::Send { type_index, reply_seq_num, with_callback, body_len }
        },
        1 => {
            let type_index = draw_u8(u);
            let seq = if draw_bool(u) {
                SeqChoice::Outstanding(draw_u8(u))
            } else {
                SeqChoice::Raw(draw_u32(u))
            };
            let body_len = draw_u8(u);
            Step::Receive { type_index, seq, body_len }
        },
        2 => Step::Advance { ms: draw_u32(u) },
        _ => Step::AlignBeforeSweep { ms: draw_u32(u) },
    };
    step.clamp()
}

/// A sequence of steps applied to both registries.
#[derive(Debug)]
pub struct RegistryInput {
    /// The steps, at most [`MAX_STEPS`].
    pub steps: Vec<Step>,
}

impl Domain for RegistryInput {
    open spec fn in_domain(&self) -> bool {
        &&& self.steps@.len() <= MAX_STEPS
        &&& forall|i: int| 0 <= i < self.steps@.len() ==> (#[trigger] self.steps@[i]).in_domain()
    }

    fn clamp_to_domain(&mut self)
        ensures
            final(self).steps@ == old(self).steps@.take(
                crate::bytes::shorter(old(self).steps@.len(), MAX_STEPS as nat) as int,
            ).map_values(|step: Step| step.clamped()),
    {
        self.steps.truncate(MAX_STEPS);
        let ghost kept = self.steps@;
        let mut i: usize = 0;
        while i < self.steps.len()
            invariant
                i <= self.steps@.len(),
                self.steps@.len() == kept.len(),
                forall|j: int| 0 <= j < i ==> self.steps@[j] == (#[trigger] kept[j]).clamped(),
                forall|j: int| 0 <= j < i ==> (#[trigger] self.steps@[j]).in_domain(),
                forall|j: int| i <= j < kept.len() ==> self.steps@[j] == #[trigger] kept[j],
            decreases self.steps@.len() - i,
        {
            let step = self.steps[i];
            self.steps.set(i, step.clamp());
            i = i + 1;
        }
        assert(self.steps@ =~= kept.map_values(|step: Step| step.clamped()));
    }
}

impl RegistryInput {
    /// Draw a script: steps until the bytes run out.
    pub fn arbitrary(u: &mut Unstructured<'_>) -> (r: Self)
        ensures
            r.steps@ == drawn_steps(unread(old(u)), MAX_STEPS as nat),
            unread(final(u)) == past_steps(unread(old(u)), MAX_STEPS as nat),
            r.in_domain(),
    {
        let mut steps: Vec<Step> = Vec::new();
        let ghost all = drawn_steps(unread(u), MAX_STEPS as nat);
        while !is_empty(u) && steps.len() < MAX_STEPS
            invariant
                steps@.len() <= MAX_STEPS,
                forall|i: int| 0 <= i < steps@.len() ==> (#[trigger] steps@[i]).in_domain(),
                steps@ + drawn_steps(unread(u), (MAX_STEPS - steps@.len()) as nat) =~= all,
                past_steps(unread(u), (MAX_STEPS - steps@.len()) as nat) == past_steps(
                    unread(old(u)),
                    MAX_STEPS as nat,
                ),
            decreases MAX_STEPS - steps@.len(),
        {
            let ghost before = steps@;
            let ghost s = unread(u);
            let step = arbitrary_step(u);
            steps.push(step);
            assert(steps@ + drawn_steps(unread(u), (MAX_STEPS - steps@.len()) as nat) =~= before
                + drawn_steps(s, (MAX_STEPS - before.len()) as nat));
        }
        RegistryInput { steps }
    }

    /// The script a seed file holds.
    pub fn from_seed(seed: &[u8]) -> (r: Self)
        ensures
            r.steps@ == drawn_steps(seed@, MAX_STEPS as nat),
            r.in_domain(),
    {
        let mut u = source(seed);
        RegistryInput::arbitrary(&mut u)
    }
}

/// A body whose bytes identify the step that produced it.
#[must_use]
pub fn body_for(step_index: usize, len: usize) -> (r: Vec<u8>)
    ensures
        r@ == Seq::new(
            len as nat,
            |i: int| (step_index as u8).wrapping_mul(31).wrapping_add(i as u8),
        ),
{
    let base: u8 = (step_index as u8).wrapping_mul(31);
    let mut body: Vec<u8> = Vec::new();
    while body.len() < len
        invariant
            base == (step_index as u8).wrapping_mul(31),
            body@.len() <= len,
            forall|i: int|
                0 <= i < body@.len() ==> #[trigger] body@[i] == base.wrapping_add(i as u8),
        decreases len - body@.len(),
    {
        let i = body.len();
        body.push(base.wrapping_add(i as u8));
    }
    body
}

/// Something the registry called back about, in the order it happened.
#[allow(inconsistent_fields)]
#[derive(Debug)]
pub enum Event {
    /// The type's processor ran.
    Process {
        /// The type in the received header.
        message_type: MessageType,
        /// The sequence number in the received header.
        seq_num: u32,
        /// The body.
        payload: Vec<u8>,
    },
    /// A request's callback ran with a reply's payload.
    Reply {
        /// Which request.
        slot: u8,
        /// The reply's body.
        payload: Vec<u8>,
    },
    /// A request's callback ran with nothing: it timed out.
    TimedOut {
        /// Which request.
        slot: u8,
    },
    /// The type's processor ran with nothing: a request sent without a
    /// callback timed out.
    ProcessTimedOut,
    /// A request was sent again.
    Resent {
        /// The sequence number it carries.
        seq_num: u32,
    },
}

/// An [`Event`], as a value.
pub enum EventView {
    /// The type's processor ran.
    Process(MessageType, u32, Seq<u8>),
    /// A request's callback ran with a reply.
    Reply(u8, Seq<u8>),
    /// A request's callback ran with nothing.
    TimedOut(u8),
    /// The type's processor ran with nothing.
    ProcessTimedOut,
    /// A request was sent again.
    Resent(u32),
}

impl View for Event {
    type V = EventView;

    open spec fn view(&self) -> EventView {
        match self {
            Event::Process { message_type, seq_num, payload } => EventView::Process(
                *message_type,
                *seq_num,
                payload@,
            ),
            Event::Reply { slot, payload } => EventView::Reply(*slot, payload@),
            Event::TimedOut { slot } => EventView::TimedOut(*slot),
            Event::ProcessTimedOut => EventView::ProcessTimedOut,
            Event::Resent { seq_num } => EventView::Resent(*seq_num),
        }
    }
}

/// A stream of events, as a value.
pub open spec fn events_view(events: Seq<Event>) -> Seq<EventView> {
    events.map_values(|event: Event| event@)
}

impl Event {
    /// Whether two events are the same.
    #[must_use]
    pub fn same(&self, other: &Event) -> (r: bool)
        ensures
            r == (self@ == other@),
    {
        match (self, other) {
            (
                Event::Process { message_type: a, seq_num: n, payload: p },
                Event::Process { message_type: b, seq_num: m, payload: q },
            ) => *a == *b && *n == *m && first_difference(
                p.as_slice(),
                q.as_slice(),
            ).is_none(),
            (
                Event::Reply { slot: a, payload: p },
                Event::Reply { slot: b, payload: q },
            ) => *a == *b && first_difference(p.as_slice(), q.as_slice()).is_none(),
            (Event::TimedOut { slot: a }, Event::TimedOut { slot: b }) => *a == *b,
            (Event::ProcessTimedOut, Event::ProcessTimedOut) => true,
            (Event::Resent { seq_num: a }, Event::Resent { seq_num: b }) => *a == *b,
            _ => false,
        }
    }
}

/// Whether the reference's callbacks are the ones the node's decisions call
/// for, in the same order.
#[must_use]
pub fn same_events(seen: &[Event], expected: &[Event]) -> (r: bool)
    ensures
        r == (events_view(seen@) == events_view(expected@)),
{
    if seen.len() != expected.len() {
        assert(events_view(seen@).len() != events_view(expected@).len());
        return false;
    }
    let mut i: usize = 0;
    while i < seen.len()
        invariant
            seen@.len() == expected@.len(),
            i <= seen@.len(),
            forall|j: int| 0 <= j < i ==> (#[trigger] seen@[j])@ == expected@[j]@,
        decreases seen@.len() - i,
    {
        if !seen[i].same(&expected[i]) {
            assert(events_view(seen@)[i as int] != events_view(expected@)[i as int]);
            return false;
        }
        i = i + 1;
    }
    assert(events_view(seen@) =~= events_view(expected@));
    true
}

/// What the reference keeps from one script to the next: the number its next
/// request carries, and the tick its expiry timer next fires on.
#[derive(Debug, Clone, Copy, PartialEq, Eq, Structural)]
pub struct Resume {
    /// The number the next request carries.
    pub sequence_count: u32,
    /// The tick the expiry timer next fires on.
    pub next_sweep_ms: u32,
}

/// How far `to` lies ahead of `from` on a 32-bit clock that wraps.
pub open spec fn ahead(from: u32, to: u32) -> int {
    (to - from) % 0x1_0000_0000
}

impl Resume {
    /// The state a process starts in: the timer is armed at tick zero.
    #[must_use]
    pub fn new() -> (r: Self)
        ensures
            r.sequence_count == 0,
            r.next_sweep_ms == MESSAGE_TIMER_EXPIRY_PERIOD_MS,
    {
        Resume { sequence_count: 0, next_sweep_ms: MESSAGE_TIMER_EXPIRY_PERIOD_MS }
    }

    /// Whether the timer is due at `now_ms`: its tick is not in the future,
    /// where the future is the half of the clock ahead of now.
    pub open spec fn due(self, now_ms: u32) -> bool {
        ahead(self.next_sweep_ms, now_ms) < 0x8000_0000
    }

    /// Advance the timer past `now_ms`, one period at a time.
    pub fn advance_timer(&mut self, now_ms: u32)
        ensures
            final(self).sequence_count == old(self).sequence_count,
            !old(self).due(now_ms) ==> final(self).next_sweep_ms == old(self).next_sweep_ms,
            old(self).due(now_ms) ==> ({
                let missed = ahead(old(self).next_sweep_ms, now_ms)
                    / MESSAGE_TIMER_EXPIRY_PERIOD_MS as int;
                &&& final(self).next_sweep_ms == (old(self).next_sweep_ms + (missed + 1)
                    * MESSAGE_TIMER_EXPIRY_PERIOD_MS) % 0x1_0000_0000
                &&& 1 <= ahead(now_ms, final(self).next_sweep_ms)
                    <= MESSAGE_TIMER_EXPIRY_PERIOD_MS
            }),
            !final(self).due(now_ms),
    {
        let start = self.next_sweep_ms;
        let late: u32 = now_ms.wrapping_sub(start);
        if late >= 0x8000_0000 {
            return;
        }
        let mut left: u32 = late;
        let ghost mut fired: int = 0;
        while left >= MESSAGE_TIMER_EXPIRY_PERIOD_MS
            invariant
                self.sequence_count == old(self).sequence_count,
                start == old(self).next_sweep_ms,
                late == ahead(start, now_ms),
                late < 0x8000_0000,
                left == late - fired * MESSAGE_TIMER_EXPIRY_PERIOD_MS,
                fired >= 0,
                self.next_sweep_ms == (start + fired * MESSAGE_TIMER_EXPIRY_PERIOD_MS)
                    % 0x1_0000_0000,
            decreases left,
        {
            left = left - MESSAGE_TIMER_EXPIRY_PERIOD_MS;
            self.next_sweep_ms = self.next_sweep_ms.wrapping_add(MESSAGE_TIMER_EXPIRY_PERIOD_MS);
            proof {
                fired = fired + 1;
            }
        }
        self.next_sweep_ms = self.next_sweep_ms.wrapping_add(MESSAGE_TIMER_EXPIRY_PERIOD_MS);
        proof {
            assert(fired == late as int / MESSAGE_TIMER_EXPIRY_PERIOD_MS as int);
        }
    }

    /// How far to advance the clock from `now_ms` so that the next sweep is
    /// `ms` away, given a timer that is at most a period ahead.
    #[must_use]
    pub fn alignment(&self, now_ms: u32, ms: u32) -> (r: u32)
        requires
            1 <= ahead(now_ms, self.next_sweep_ms) <= MESSAGE_TIMER_EXPIRY_PERIOD_MS,
            1 <= ms <= MESSAGE_TIMER_EXPIRY_PERIOD_MS,
        ensures
            ({
                let distance = ahead(now_ms, self.next_sweep_ms);
                r == if ms <= distance {
                    distance - ms
                } else {
                    distance + MESSAGE_TIMER_EXPIRY_PERIOD_MS - ms
                }
            }),
    {
        let distance: u32 = self.next_sweep_ms.wrapping_sub(now_ms);
        if ms <= distance {
            distance - ms
        } else {
            distance + MESSAGE_TIMER_EXPIRY_PERIOD_MS - ms
        }
    }
}

/// Aligning lands on the phase that was asked for: once the clock has advanced
/// by the alignment and the timer has caught up, the next sweep is exactly as
/// far away as was asked.
#[verifier::spinoff_prover]
#[verifier::rlimit(60)]
pub proof fn law_alignment_lands_on_the_phase(next_sweep_ms: u32, now_ms: u32, ms: u32)
    requires
        1 <= ahead(now_ms, next_sweep_ms) <= MESSAGE_TIMER_EXPIRY_PERIOD_MS,
        1 <= ms <= MESSAGE_TIMER_EXPIRY_PERIOD_MS,
    ensures
        ({
            let distance = ahead(now_ms, next_sweep_ms);
            let step = if ms <= distance {
                distance - ms
            } else {
                distance + MESSAGE_TIMER_EXPIRY_PERIOD_MS - ms
            };
            let later = ((now_ms + step) % 0x1_0000_0000) as u32;
            let due = Resume { sequence_count: 0, next_sweep_ms }.due(later);
            let missed = ahead(next_sweep_ms, later) / MESSAGE_TIMER_EXPIRY_PERIOD_MS as int;
            let next = if due {
                ((next_sweep_ms + (missed + 1) * MESSAGE_TIMER_EXPIRY_PERIOD_MS) % 0x1_0000_0000)
                    as u32
            } else {
                next_sweep_ms
            };
            ahead(later, next) == ms
        }),
{
    let m: int = 0x1_0000_0000;
    let period = MESSAGE_TIMER_EXPIRY_PERIOD_MS as int;
    let distance = ahead(now_ms, next_sweep_ms);
    if ms <= distance {
        let later = ((now_ms + (distance - ms)) % m) as u32;
        assert(later == (next_sweep_ms - ms) % m);
        assert(ahead(next_sweep_ms, later) == m - ms);
        assert(ahead(later, next_sweep_ms) == ms);
    } else {
        let later = ((now_ms + (distance + period - ms)) % m) as u32;
        assert(later == (next_sweep_ms + period - ms) % m);
        assert(ahead(next_sweep_ms, later) == period - ms);
        assert((period - ms) / period == 0);
        let next = ((next_sweep_ms + period) % m) as u32;
        assert(ahead(later, next) == ms);
        assert((0 + 1) * period == period);
    }
}

/// What the comparison remembers about a request it sent.
#[derive(Debug, Clone, Copy, PartialEq, Eq, Structural)]
pub struct Slot {
    /// Which callback the request was given, if any. Fixed at send time, so it
    /// survives entries being removed from in front of it.
    pub slot: u8,
    /// The sequence number it carries.
    pub seq_num: u32,
    /// Whether it was given a callback at all.
    pub with_callback: bool,
}

/// What a received message came to.
#[derive(Debug, Clone, Copy, PartialEq, Eq, Structural)]
pub enum Delivery {
    /// Nothing registers its type.
    Unregistered,
    /// It is for its type's processor.
    Process,
    /// It answers the outstanding request with this number.
    SequencedReply(u32),
}

/// What the expiry sweep did with a request.
#[derive(Debug, Clone, Copy, PartialEq, Eq, Structural)]
pub enum Expiry {
    /// It sent the request with this number again.
    Retry(u32),
    /// It gave up on the request with this number.
    TimedOut(u32),
}

/// How a send differs.
#[allow(inconsistent_fields)]
#[derive(Debug, Clone, Copy, PartialEq, Eq, Structural)]
pub enum SendDivergence {
    /// One side left a request outstanding and the other did not.
    Tracking {
        /// Whether the node did.
        node: bool,
    },
    /// The request carries another number than the reference's next one.
    Sequence {
        /// The node's number.
        node: u32,
        /// The reference's.
        reference: u32,
    },
}

/// What serialising a message came to on the reference's side.
#[derive(Debug, Clone, Copy, PartialEq, Eq, Structural)]
pub enum ReferenceSent {
    /// It was serialised.
    Sent,
    /// Its type is not registered.
    UnknownType,
    /// It failed in some other way.
    Failed,
}

/// What serialising a message came to on the node's side.
#[derive(Debug, Clone, Copy, PartialEq, Eq, Structural)]
pub enum NodeSent {
    /// It was serialised.
    Sent {
        /// The number it carries.
        seq_num: u32,
        /// Whether it leaves a request outstanding.
        pending: bool,
    },
    /// Its type is not registered.
    UnknownType,
    /// It failed in some other way.
    Failed,
}

/// A message put to both sides for sending.
#[derive(Debug)]
pub struct SentSeen {
    /// What the reference made of it.
    pub reference: ReferenceSent,
    /// What the node made of it.
    pub node: NodeSent,
    /// The reference's frame.
    pub reference_frame: Vec<u8>,
    /// The node's frame.
    pub node_frame: Vec<u8>,
}

impl SentSeen {
    /// Whether both sides serialised the message, or both refused its type.
    pub open spec fn agreed(self) -> bool {
        match self.node {
            NodeSent::Sent { .. } => self.reference is Sent,
            NodeSent::UnknownType => self.reference is UnknownType,
            NodeSent::Failed => false,
        }
    }

    /// What is wrong with the number a serialised message carries, or with
    /// the request it leaves behind.
    pub open spec fn numbered(self, tracks: bool, next: u32) -> Result<(), SendDivergence> {
        match self.node {
            NodeSent::Sent { seq_num, pending } => if pending != tracks {
                Err(SendDivergence::Tracking { node: pending })
            } else if pending && seq_num != next {
                Err(SendDivergence::Sequence { node: seq_num, reference: next })
            } else {
                Ok(())
            },
            _ => Ok(()),
        }
    }

    /// The number of the request that is now outstanding on both sides, if
    /// there is one.
    pub open spec fn leaves(self, tracks: bool, next: u32) -> Option<u32> {
        match self.node {
            NodeSent::Sent { seq_num, pending } => if self.agreed() && pending && tracks && seq_num
                == next {
                Some(seq_num)
            } else {
                None
            },
            _ => None,
        }
    }
}

/// Whether a send of this type leaves a request outstanding.
pub open spec fn tracked_by(cfg: Option<PacketCfg>) -> bool {
    match cfg {
        Some(cfg) => cfg.tracks(),
        None => false,
    }
}

/// How a send differs.
#[derive(Debug, Clone, Copy, PartialEq, Eq, Structural)]
pub enum SentDivergence {
    /// One side serialised the message and the other did not, or the node
    /// failed.
    Refused,
    /// The numbers, or the requests left behind, differ.
    Number(SendDivergence),
    /// The frames differ, first at this byte.
    Frame(usize),
}

/// A request was answered, or expired, that nothing sent.
#[derive(Debug, Clone, Copy, PartialEq, Eq, Structural)]
pub struct UnknownRequest {
    /// The number it carries.
    pub seq_num: u32,
}

/// Where the first request with a number is, or how many there are if none is.
pub open spec fn position(slots: Seq<Slot>, seq_num: u32) -> nat
    decreases slots.len(),
{
    if slots.len() == 0 {
        0
    } else if slots[0].seq_num == seq_num {
        0
    } else {
        1 + position(slots.drop_first(), seq_num)
    }
}

/// [`position`] is the first index with the number: nothing before it has it.
pub proof fn lemma_position(slots: Seq<Slot>, seq_num: u32)
    ensures
        position(slots, seq_num) <= slots.len(),
        forall|i: int|
            0 <= i < position(slots, seq_num) ==> (#[trigger] slots[i]).seq_num != seq_num,
        position(slots, seq_num) < slots.len() ==> slots[position(
            slots,
            seq_num,
        ) as int].seq_num == seq_num,
    decreases slots.len(),
{
    if slots.len() > 0 && slots[0].seq_num != seq_num {
        let tail = slots.drop_first();
        lemma_position(tail, seq_num);
        assert forall|i: int| 0 <= i < position(slots, seq_num) implies (
        #[trigger] slots[i]).seq_num != seq_num by {
            if i > 0 {
                assert(slots[i] == tail[i - 1]);
            }
        }
    }
}

/// The requests the reference holds, as a value.
pub struct Held {
    /// The requests, in list order.
    pub slots: Seq<Slot>,
    /// The list they are on.
    pub links: Links,
}

impl Held {
    /// Nothing outstanding.
    pub open spec fn empty() -> Held {
        Held { slots: Seq::empty(), links: Links::empty() }
    }

    /// One list node per request, and no more requests than a script has steps.
    pub open spec fn well_formed(self) -> bool {
        &&& self.slots.len() == self.links.nodes.len()
        &&& self.links.added <= MAX_STEPS
        &&& self.links.well_formed()
    }

    /// With one more request.
    pub open spec fn sent(self, seq_num: u32, with_callback: bool) -> Held {
        Held {
            slots: self.slots.push(
                Slot { slot: self.links.added as u8, seq_num, with_callback },
            ),
            links: self.links.grown(),
        }
    }

    /// Without the first request that carries a number.
    pub open spec fn without(self, seq_num: u32) -> Held {
        let at = position(self.slots, seq_num) as int;
        Held { slots: self.slots.remove(at), links: self.links.without(at) }
    }

    /// Whether a request with this number is outstanding.
    pub open spec fn holds(self, seq_num: u32) -> bool {
        position(self.slots, seq_num) < self.slots.len()
    }

    /// The first request that carries a number.
    pub open spec fn first(self, seq_num: u32) -> Slot {
        self.slots[position(self.slots, seq_num) as int]
    }

    /// The callbacks a received message leads to: none for an unregistered
    /// type, the type's processor for ordinary traffic, and for a reply the
    /// request's own callback, or the processor if it has none.
    pub open spec fn callbacks(
        self,
        delivery: Delivery,
        message_type: MessageType,
        seq_num: u32,
        body: Seq<u8>,
    ) -> Seq<EventView> {
        match delivery {
            Delivery::Unregistered => Seq::empty(),
            Delivery::Process => seq![EventView::Process(message_type, seq_num, body)],
            Delivery::SequencedReply(request) => if self.first(request).with_callback {
                seq![EventView::Reply(self.first(request).slot, body)]
            } else {
                seq![EventView::Process(message_type, seq_num, body)]
            },
        }
    }

    /// The callback an expiry leads to: another transmission for a retry, and
    /// for a request that is given up on its own callback, or the processor if
    /// it has none.
    pub open spec fn expiry(self, expiry: Expiry) -> EventView {
        match expiry {
            Expiry::Retry(seq_num) => EventView::Resent(seq_num),
            Expiry::TimedOut(seq_num) => if self.first(seq_num).with_callback {
                EventView::TimedOut(self.first(seq_num).slot)
            } else {
                EventView::ProcessTimedOut
            },
        }
    }

    /// What is held after a sweep.
    pub open spec fn swept(self, expired: Seq<Expiry>) -> Held
        decreases expired.len(),
    {
        if expired.len() == 0 {
            self
        } else {
            let before = self.swept(expired.drop_last());
            match expired.last() {
                Expiry::Retry(_) => before,
                Expiry::TimedOut(seq_num) => before.without(seq_num),
            }
        }
    }

    /// The callbacks of a sweep, in the order of the requests it touched.
    pub open spec fn sweep_callbacks(self, expired: Seq<Expiry>) -> Seq<EventView>
        decreases expired.len(),
    {
        if expired.len() == 0 {
            Seq::empty()
        } else {
            self.sweep_callbacks(expired.drop_last()).push(
                self.swept(expired.drop_last()).expiry(expired.last()),
            )
        }
    }

    /// Whether every request a sweep gave up on was outstanding.
    pub open spec fn accounts_for(self, expired: Seq<Expiry>) -> bool
        decreases expired.len(),
    {
        if expired.len() == 0 {
            true
        } else {
            &&& self.accounts_for(expired.drop_last())
            &&& expired.last() matches Expiry::TimedOut(seq_num) ==> self.swept(
                expired.drop_last(),
            ).holds(seq_num)
        }
    }
}

/// What the comparison believes the reference to be holding: its outstanding
/// requests, and the links of the list they are on.
#[derive(Debug)]
pub struct Outstanding {
    slots: Vec<Slot>,
    links: LinkModel,
}

impl View for Outstanding {
    type V = Held;

    closed spec fn view(&self) -> Held {
        Held { slots: self.slots@, links: self.links@ }
    }
}

impl Outstanding {
    /// Nothing outstanding.
    #[must_use]
    pub fn new() -> (r: Self)
        ensures
            r@ == Held::empty(),
            r@.well_formed(),
    {
        Outstanding { slots: Vec::new(), links: LinkModel::new() }
    }

    /// Whether nothing is outstanding.
    #[must_use]
    pub fn is_empty(&self) -> (r: bool)
        ensures
            r == (self@.slots.len() == 0),
    {
        self.slots.len() == 0
    }

    /// Whether a send has to be left out on both sides: it would leave a
    /// request outstanding, on a list whose tail dangles.
    #[must_use]
    pub fn declines(&self, cfg: Option<PacketCfg>) -> (r: bool)
        ensures
            r == (cfg matches Some(cfg) && cfg.tracks() && self@.links.hazardous()),
    {
        match cfg {
            Some(cfg) => cfg.sequenced_request && !cfg.sequenced_reply
                && self.links.add_is_undefined(),
            None => false,
        }
    }

    /// The slot whose callback a send carries, if it carries one: only a send
    /// that leaves a request outstanding has anything to call back for.
    #[must_use]
    pub fn callback_slot(&self, cfg: Option<PacketCfg>, with_callback: bool) -> (r: Option<u8>)
        requires
            self@.links.added < MAX_STEPS,
        ensures
            r == if with_callback && (cfg matches Some(cfg) && cfg.tracks()) {
                Some(self@.links.added as u8)
            } else {
                None
            },
    {
        match cfg {
            Some(cfg) if with_callback && cfg.sequenced_request && !cfg.sequenced_reply => {
                Some(self.links.added() as u8)
            },
            _ => None,
        }
    }

    /// A message of a registered type was sent: whether the two sides agree on
    /// its number and on whether it leaves a request outstanding. If it does,
    /// the request is remembered and the reference's counter moves on.
    pub fn on_sent(
        &mut self,
        resume: &mut Resume,
        cfg: PacketCfg,
        seq_num: u32,
        pending: bool,
        with_callback: bool,
    ) -> (r: Result<(), SendDivergence>)
        requires
            old(self)@.well_formed(),
            cfg.tracks() ==> !old(self)@.links.hazardous(),
            old(self)@.links.added < MAX_STEPS,
        ensures
            final(self)@.well_formed(),
            r == if pending != cfg.tracks() {
                Err(SendDivergence::Tracking { node: pending })
            } else if pending && seq_num != old(resume).sequence_count {
                Err(
                    SendDivergence::Sequence {
                        node: seq_num,
                        reference: old(resume).sequence_count,
                    },
                )
            } else {
                Ok(())
            },
            final(resume).next_sweep_ms == old(resume).next_sweep_ms,
            r is Ok && pending ==> {
                &&& final(self)@ == old(self)@.sent(seq_num, with_callback)
                &&& final(resume).sequence_count == old(resume).sequence_count.wrapping_add(1)
            },
            !(r is Ok && pending) ==> final(self)@ == old(self)@ && final(resume).sequence_count
                == old(resume).sequence_count,
    {
        let expected = cfg.sequenced_request && !cfg.sequenced_reply;
        if pending != expected {
            return Err(SendDivergence::Tracking { node: pending });
        }
        if pending {
            if seq_num != resume.sequence_count {
                return Err(
                    SendDivergence::Sequence {
                        node: seq_num,
                        reference: resume.sequence_count,
                    },
                );
            }
            resume.sequence_count = resume.sequence_count.wrapping_add(1);
            let slot: u8 = self.links.added() as u8;
            self.links.add();
            self.slots.push(Slot { slot, seq_num, with_callback });
        }
        Ok(())
    }

    /// A message was put to both sides for sending: whether they made the
    /// same of it, down to the bytes. If it leaves a request outstanding, the
    /// request is remembered and the reference's counter moves on.
    pub fn check_sent(
        &mut self,
        resume: &mut Resume,
        cfg: Option<PacketCfg>,
        with_callback: bool,
        seen: &SentSeen,
    ) -> (r: Result<(), SentDivergence>)
        requires
            old(self)@.well_formed(),
            tracked_by(cfg) ==> !old(self)@.links.hazardous(),
            old(self)@.links.added < MAX_STEPS,
        ensures
            final(self)@.well_formed(),
            r is Ok <==> {
                &&& seen.agreed()
                &&& seen.numbered(tracked_by(cfg), old(resume).sequence_count) is Ok
                &&& seen.reference_frame@ == seen.node_frame@
            },
            r matches Err(divergence) ==> match divergence {
                SentDivergence::Refused => !seen.agreed(),
                SentDivergence::Number(number) => {
                    &&& seen.agreed()
                    &&& seen.numbered(tracked_by(cfg), old(resume).sequence_count) == Err::<
                        (),
                        SendDivergence,
                    >(number)
                },
                SentDivergence::Frame(at) => {
                    &&& seen.agreed()
                    &&& seen.numbered(tracked_by(cfg), old(resume).sequence_count) is Ok
                    &&& differ_first_at(seen.reference_frame@, seen.node_frame@, at as int)
                },
            },
            final(resume).next_sweep_ms == old(resume).next_sweep_ms,
            match seen.leaves(tracked_by(cfg), old(resume).sequence_count) {
                Some(seq_num) => {
                    &&& final(self)@ == old(self)@.sent(seq_num, with_callback)
                    &&& final(resume).sequence_count == old(resume).sequence_count.wrapping_add(1)
                },
                None => {
                    &&& final(self)@ == old(self)@
                    &&& final(resume).sequence_count == old(resume).sequence_count
                },
            },
    {
        let agreed = match seen.node {
            NodeSent::Sent { .. } => seen.reference == ReferenceSent::Sent,
            NodeSent::UnknownType => seen.reference == ReferenceSent::UnknownType,
            NodeSent::Failed => false,
        };
        if !agreed {
            return Err(SentDivergence::Refused);
        }
        if let NodeSent::Sent { seq_num, pending } = seen.node {
            let cfg = match cfg {
                Some(cfg) => cfg,
                None => PacketCfg { sequenced_reply: false, sequenced_request: false },
            };
            match self.on_sent(resume, cfg, seq_num, pending, with_callback) {
                Ok(()) => {},
                Err(number) => return Err(SentDivergence::Number(number)),
            }
        }
        match first_difference(seen.reference_frame.as_slice(), seen.node_frame.as_slice()) {
            Some(at) => Err(SentDivergence::Frame(at)),
            None => Ok(()),
        }
    }

    /// Where the first request with a number is.
    fn find(&self, seq_num: u32) -> (r: Option<usize>)
        ensures
            r is Some <==> self@.holds(seq_num),
            r matches Some(at) ==> at == position(self@.slots, seq_num),
    {
        let mut i: usize = 0;
        proof {
            lemma_position(self.slots@, seq_num);
        }
        while i < self.slots.len()
            invariant
                i <= self.slots@.len(),
                i <= position(self.slots@, seq_num),
                position(self.slots@, seq_num) <= self.slots@.len(),
                position(self.slots@, seq_num) < self.slots@.len()
                    ==> self.slots@[position(self.slots@, seq_num) as int].seq_num == seq_num,
                forall|j: int|
                    0 <= j < position(self.slots@, seq_num) ==> (
                    #[trigger] self.slots@[j]).seq_num != seq_num,
            decreases self.slots@.len() - i,
        {
            if self.slots[i].seq_num == seq_num {
                return Some(i);
            }
            i = i + 1;
        }
        None
    }

    /// Take the first request with a number off the list.
    fn take(&mut self, seq_num: u32) -> (r: Result<Slot, UnknownRequest>)
        requires
            old(self)@.well_formed(),
        ensures
            final(self)@.well_formed(),
            r is Ok <==> old(self)@.holds(seq_num),
            r matches Ok(slot) ==> slot == old(self)@.first(seq_num) && final(self)@ == old(
                self,
            )@.without(seq_num),
            r matches Err(error) ==> error.seq_num == seq_num && final(self)@ == old(self)@,
    {
        match self.find(seq_num) {
            None => Err(UnknownRequest { seq_num }),
            Some(at) => {
                self.links.remove(at);
                Ok(self.slots.remove(at))
            },
        }
    }

    /// A message was received: the callbacks the reference must make of it,
    /// given what the node made of it.
    pub fn on_received(
        &mut self,
        delivery: Delivery,
        message_type: MessageType,
        seq_num: u32,
        body: &[u8],
    ) -> (r: Result<Vec<Event>, UnknownRequest>)
        requires
            old(self)@.well_formed(),
        ensures
            final(self)@.well_formed(),
            r matches Err(error) ==> delivery == Delivery::SequencedReply(error.seq_num) && !old(
                self,
            )@.holds(error.seq_num),
            r matches Ok(events) ==> events_view(events@) == old(self)@.callbacks(
                delivery,
                message_type,
                seq_num,
                body@,
            ),
            final(self)@ == match (delivery, r) {
                (Delivery::SequencedReply(request), Ok(_)) => old(self)@.without(request),
                _ => old(self)@,
            },
            delivery matches Delivery::SequencedReply(request) ==> (r is Ok <==> old(self)@.holds(
                request,
            )),
    {
        let mut events: Vec<Event> = Vec::new();
        match delivery {
            Delivery::Unregistered => {},
            Delivery::Process => {
                events.push(
                    Event::Process { message_type, seq_num, payload: crate::bytes::copied(body) },
                );
            },
            Delivery::SequencedReply(request) => match self.take(request) {
                Err(error) => return Err(error),
                Ok(held) => {
                    let payload = crate::bytes::copied(body);
                    if held.with_callback {
                        events.push(Event::Reply { slot: held.slot, payload });
                    } else {
                        events.push(Event::Process { message_type, seq_num, payload });
                    }
                },
            },
        }
        assert(events_view(events@) =~= old(self)@.callbacks(
            delivery,
            message_type,
            seq_num,
            body@,
        ));
        Ok(events)
    }

    /// The expiry sweep ran: the callbacks the reference must make of it, given
    /// what the node's sweep did, in the order of the requests it touched.
    pub fn sweep(&mut self, expired: &[Expiry]) -> (r: Result<Vec<Event>, UnknownRequest>)
        requires
            old(self)@.well_formed(),
        ensures
            final(self)@.well_formed(),
            r is Ok <==> old(self)@.accounts_for(expired@),
            r matches Ok(events) ==> events_view(events@) == old(self)@.sweep_callbacks(expired@)
                && final(self)@ == old(self)@.swept(expired@),
            r matches Err(error) ==> exists|n: int|
                #![trigger expired@.subrange(0, n)]
                0 <= n < expired@.len() && expired@[n] == Expiry::TimedOut(error.seq_num) && old(
                    self,
                )@.accounts_for(expired@.subrange(0, n)) && !old(self)@.swept(
                    expired@.subrange(0, n),
                ).holds(error.seq_num),
    {
        let mut events: Vec<Event> = Vec::new();
        let mut i: usize = 0;
        assert(expired@.subrange(0, 0) =~= Seq::<Expiry>::empty());
        assert(events_view(events@) =~= Seq::<EventView>::empty());
        while i < expired.len()
            invariant
                i <= expired@.len(),
                self@.well_formed(),
                self@ == old(self)@.swept(expired@.subrange(0, i as int)),
                old(self)@.accounts_for(expired@.subrange(0, i as int)),
                events_view(events@) == old(self)@.sweep_callbacks(
                    expired@.subrange(0, i as int),
                ),
            decreases expired@.len() - i,
        {
            let ghost done = expired@.subrange(0, i as int);
            let ghost more = expired@.subrange(0, i + 1);
            let ghost before = events@;
            proof {
                assert(more.drop_last() =~= done);
                assert(more.last() == expired@[i as int]);
            }
            match expired[i] {
                Expiry::Retry(seq_num) => {
                    events.push(Event::Resent { seq_num });
                },
                Expiry::TimedOut(seq_num) => match self.take(seq_num) {
                    Err(error) => {
                        proof {
                            lemma_accounts_for_prefix(old(self)@, expired@, i + 1);
                        }
                        return Err(error);
                    },
                    Ok(held) => {
                        if held.with_callback {
                            events.push(Event::TimedOut { slot: held.slot });
                        } else {
                            events.push(Event::ProcessTimedOut);
                        }
                    },
                },
            }
            proof {
                assert(events_view(events@) =~= events_view(before).push(events@.last()@));
            }
            i = i + 1;
        }
        assert(expired@.subrange(0, i as int) =~= expired@);
        Ok(events)
    }
}

/// A sweep that accounts for every request accounts for its first ones.
pub proof fn lemma_accounts_for_prefix(held: Held, expired: Seq<Expiry>, n: int)
    requires
        0 <= n <= expired.len(),
    ensures
        held.accounts_for(expired) ==> held.accounts_for(expired.subrange(0, n)),
    decreases expired.len(),
{
    if n == expired.len() {
        assert(expired.subrange(0, n) =~= expired);
    } else {
        lemma_accounts_for_prefix(held, expired.drop_last(), n);
        assert(expired.drop_last().subrange(0, n) =~= expired.subrange(0, n));
    }
}

/// What is left once everything outstanding has had time to run out.
#[derive(Debug, Clone, Copy, PartialEq, Eq, Structural)]
pub struct Leftovers {
    /// Requests the node still holds.
    pub pending: usize,
    /// Callbacks the reference reported after the last expected one.
    pub stragglers: usize,
    /// Frames the reference has not given back.
    pub frames: usize,
}

/// What was not used up when a script was over.
#[derive(Debug, Clone, Copy, PartialEq, Eq, Structural)]
pub enum DrainDivergence {
    /// The node still holds requests.
    Pending,
    /// A request was neither answered nor given up on.
    Unaccounted,
    /// The reference reported something late.
    Stragglers,
    /// The reference kept a frame.
    Frames,
}

/// Whether a script left nothing behind, on either side.
pub fn check_drained(outstanding: &Outstanding, left: Leftovers) -> (r: Result<
    (),
    DrainDivergence,
>)
    ensures
        r == if left.pending != 0 {
            Err::<(), DrainDivergence>(DrainDivergence::Pending)
        } else if outstanding@.slots.len() != 0 {
            Err(DrainDivergence::Unaccounted)
        } else if left.stragglers != 0 {
            Err(DrainDivergence::Stragglers)
        } else if left.frames != 0 {
            Err(DrainDivergence::Frames)
        } else {
            Ok(())
        },
{
    if left.pending != 0 {
        return Err(DrainDivergence::Pending);
    }
    if !outstanding.is_empty() {
        return Err(DrainDivergence::Unaccounted);
    }
    if left.stragglers != 0 {
        return Err(DrainDivergence::Stragglers);
    }
    if left.frames != 0 {
        return Err(DrainDivergence::Frames);
    }
    Ok(())
}

/// How many sweeps it takes before nothing can be outstanding: the first one a
/// request can expire on, one per retry, and one to give up.
#[must_use]
pub fn draining_sweeps(retries: u8) -> (r: u32)
    ensures
        r == retries + 2,
{
    (retries as u32) + 2
}

/// A request stays outstanding until a reply or a timeout names it, and an
/// answered request is answered once: taking one off leaves one fewer, and
/// leaves every request before it as it was.
pub proof fn law_an_answer_takes_one_request_off(held: Held, seq_num: u32)
    requires
        held.well_formed(),
        held.holds(seq_num),
    ensures
        held.without(seq_num).slots.len() == held.slots.len() - 1,
        held.first(seq_num).seq_num == seq_num,
        forall|i: int|
            0 <= i < position(held.slots, seq_num) ==> #[trigger] held.without(seq_num).slots[i]
                == held.slots[i],
{
    lemma_position(held.slots, seq_num);
}

/// Whether `at` is where the first request with a number stands.
pub open spec fn stands_first(slots: Seq<Slot>, seq_num: u32, at: int) -> bool {
    &&& 0 <= at < slots.len()
    &&& slots[at].seq_num == seq_num
    &&& forall|i: int| 0 <= i < at ==> (#[trigger] slots[i]).seq_num != seq_num
}

/// The first request with a number is found wherever it stands.
pub proof fn lemma_stands_first(held: Held, seq_num: u32, at: int)
    requires
        stands_first(held.slots, seq_num, at),
    ensures
        held.holds(seq_num),
        position(held.slots, seq_num) == at,
{
    lemma_position(held.slots, seq_num);
    let found = position(held.slots, seq_num) as int;
    if found < at {
        assert(held.slots[found].seq_num == seq_num);
    }
}

/// Every message of a registered type is expected to be seen exactly once, and
/// as it arrived: by its type's processor, with its type, number and body, or,
/// if it answers a request that was given a callback, by that callback with
/// its body. A message of an unregistered type is expected to be seen by
/// nobody.
pub proof fn law_every_delivery_is_seen_once(
    held: Held,
    message_type: MessageType,
    seq_num: u32,
    body: Seq<u8>,
    request: u32,
    at: int,
)
    requires
        stands_first(held.slots, request, at),
    ensures
        held.callbacks(Delivery::Unregistered, message_type, seq_num, body).len() == 0,
        held.callbacks(Delivery::Process, message_type, seq_num, body) =~= seq![
            EventView::Process(message_type, seq_num, body),
        ],
        ({
            let seen = held.callbacks(
                Delivery::SequencedReply(request),
                message_type,
                seq_num,
                body,
            );
            &&& seen.len() == 1
            &&& held.slots[at].with_callback ==> seen[0] == EventView::Reply(
                held.slots[at].slot,
                body,
            )
            &&& !held.slots[at].with_callback ==> seen[0] == EventView::Process(
                message_type,
                seq_num,
                body,
            )
        }),
{
    lemma_stands_first(held, request, at);
}

/// The processor sees ordinary traffic whatever is outstanding: what is held
/// does not change what a message that answers nothing leads to.
pub proof fn law_ordinary_traffic_does_not_depend_on_requests(
    held: Held,
    message_type: MessageType,
    seq_num: u32,
    body: Seq<u8>,
)
    ensures
        held.callbacks(Delivery::Process, message_type, seq_num, body).len() == 1,
        held.callbacks(Delivery::Process, message_type, seq_num, body)[0] == EventView::Process(
            message_type,
            seq_num,
            body,
        ),
        held.callbacks(Delivery::Unregistered, message_type, seq_num, body).len() == 0,
{
}

/// An answered or abandoned request is the one that leaves, and the only one:
/// the others stay as they were, in order.
pub proof fn law_only_the_named_request_leaves(held: Held, seq_num: u32, at: int)
    requires
        stands_first(held.slots, seq_num, at),
    ensures
        held.without(seq_num).slots =~= held.slots.take(at) + held.slots.skip(at + 1),
        held.without(seq_num).links == held.links.without(at),
{
    lemma_stands_first(held, seq_num, at);
}

/// A request that was sent is outstanding, behind those that were, under the
/// number it was sent with and the callback it was given; its callback's slot
/// is how many had been sent before it. Its answer reaches that callback, and
/// leaves what was outstanding before it was sent.
pub proof fn law_a_sent_request_waits_for_its_own_answer(
    held: Held,
    seq_num: u32,
    with_callback: bool,
    message_type: MessageType,
    body: Seq<u8>,
)
    requires
        forall|i: int| 0 <= i < held.slots.len() ==> (#[trigger] held.slots[i]).seq_num != seq_num,
    ensures
        ({
            let now = held.sent(seq_num, with_callback);
            &&& !held.holds(seq_num)
            &&& now.holds(seq_num)
            &&& now.slots.len() == held.slots.len() + 1
            &&& now.slots.drop_last() =~= held.slots
            &&& now.slots.last().seq_num == seq_num
            &&& now.slots.last().with_callback == with_callback
            &&& now.slots.last().slot == held.links.added as u8
            &&& now.links == held.links.grown()
            &&& now.without(seq_num).slots =~= held.slots
            &&& with_callback ==> now.callbacks(
                Delivery::SequencedReply(seq_num),
                message_type,
                seq_num,
                body,
            ) =~= seq![EventView::Reply(held.links.added as u8, body)]
            &&& with_callback ==> now.expiry(Expiry::TimedOut(seq_num)) == EventView::TimedOut(
                held.links.added as u8,
            )
        }),
{
    lemma_position(held.slots, seq_num);
    let now = held.sent(seq_num, with_callback);
    lemma_stands_first(now, seq_num, held.slots.len() as int);
}

/// What a sweep does to one request: a retry sends it again under its number
/// and leaves it outstanding; giving up on it runs its own callback, or the
/// processor if it has none, and takes it off.
pub proof fn law_a_sweep_retries_or_gives_up(held: Held, seq_num: u32, at: int)
    requires
        stands_first(held.slots, seq_num, at),
    ensures
        held.expiry(Expiry::Retry(seq_num)) == EventView::Resent(seq_num),
        held.swept(seq![Expiry::Retry(seq_num)]) == held,
        held.slots[at].with_callback ==> held.expiry(Expiry::TimedOut(seq_num))
            == EventView::TimedOut(held.slots[at].slot),
        !held.slots[at].with_callback ==> held.expiry(Expiry::TimedOut(seq_num))
            == EventView::ProcessTimedOut,
        held.swept(seq![Expiry::TimedOut(seq_num)]).slots =~= held.slots.take(at)
            + held.slots.skip(at + 1),
{
    lemma_stands_first(held, seq_num, at);
    reveal_with_fuel(Held::swept, 2);
    assert(seq![Expiry::Retry(seq_num)].drop_last() =~= Seq::empty());
    assert(seq![Expiry::TimedOut(seq_num)].drop_last() =~= Seq::empty());
}

/// A sweep is its expiries one after the other: sweeping two lists in a row
/// comes to sweeping them as one, each expiry is seen once, in order, and a
/// sweep accounts for both exactly if each accounts for its own.
pub proof fn law_sweeps_follow_one_another(held: Held, first: Seq<Expiry>, second: Seq<Expiry>)
    ensures
        held.swept(first + second) == held.swept(first).swept(second),
        held.sweep_callbacks(first + second) =~= held.sweep_callbacks(first) + held.swept(
            first,
        ).sweep_callbacks(second),
        held.accounts_for(first + second) <==> held.accounts_for(first) && held.swept(
            first,
        ).accounts_for(second),
        held.sweep_callbacks(first).len() == first.len(),
        forall|i: int|
            0 <= i < first.len() ==> #[trigger] held.sweep_callbacks(first)[i] == held.swept(
                first.take(i),
            ).expiry(first[i]),
    decreases first.len() + second.len(), second.len(),
{
    if second.len() == 0 {
        assert(first + second =~= first);
        if first.len() > 0 {
            let before = first.drop_last();
            law_sweeps_follow_one_another(held, before, Seq::empty());
            assert forall|i: int| 0 <= i < first.len() implies #[trigger] held.sweep_callbacks(
                first,
            )[i] == held.swept(first.take(i)).expiry(first[i]) by {
                if i < before.len() {
                    assert(held.sweep_callbacks(first)[i] == held.sweep_callbacks(before)[i]);
                    assert(first.take(i) =~= before.take(i));
                } else {
                    assert(first.take(i) =~= before);
                }
            }
        }
    } else {
        law_sweeps_follow_one_another(held, first, second.drop_last());
        assert((first + second).drop_last() =~= first + second.drop_last());
        assert((first + second).last() == second.last());
    }
}

/// A sweep accounts for what it gave up on exactly if each of those requests
/// was still outstanding by the time it was given up on. A retry needs none.
pub proof fn law_nothing_is_given_up_on_that_was_not_sent(held: Held, expired: Seq<Expiry>, n: u32)
    ensures
        held.accounts_for(seq![Expiry::Retry(n)]),
        held.accounts_for(seq![Expiry::TimedOut(n)]) <==> exists|i: int|
            0 <= i < held.slots.len() && (#[trigger] held.slots[i]).seq_num == n,
        held.accounts_for(expired + seq![Expiry::TimedOut(n)]) <==> held.accounts_for(expired)
            && exists|i: int|
            0 <= i < held.swept(expired).slots.len() && (#[trigger] held.swept(
                expired,
            ).slots[i]).seq_num == n,
{
    reveal_with_fuel(Held::swept, 2);
    reveal_with_fuel(Held::accounts_for, 2);
    lemma_position(held.slots, n);
    lemma_position(held.swept(expired).slots, n);
    assert(seq![Expiry::Retry(n)].drop_last() =~= Seq::empty());
    assert(seq![Expiry::TimedOut(n)].drop_last() =~= Seq::empty());
    assert((expired + seq![Expiry::TimedOut(n)]).drop_last() =~= expired);
}

/// Sending agrees exactly if both sides sent, or both refused the type. A
/// request is left outstanding on both sides exactly if both sent it, it is of
/// a type that waits for an answer, the node says so too, and it carries the
/// reference's next number; that number is then the one remembered.
pub proof fn law_a_request_is_outstanding_if_both_sides_sent_it(
    seen: SentSeen,
    tracks: bool,
    next: u32,
)
    ensures
        seen.agreed() <==> (seen.node is Sent && seen.reference is Sent) || (seen.node
            is UnknownType && seen.reference is UnknownType),
        seen.leaves(tracks, next) matches Some(number) ==> number == next,
        seen.leaves(tracks, next) is Some <==> seen.reference is Sent && tracks && seen.node == (
        NodeSent::Sent { seq_num: next, pending: true }),
        seen.numbered(tracks, next) is Err <==> seen.node is Sent && (seen.node->pending != tracks
            || (seen.node->pending && seen.node->seq_num != next)),
        seen.numbered(tracks, next) matches Err(SendDivergence::Tracking { node }) ==> node
            != tracks,
        seen.numbered(tracks, next) matches Err(SendDivergence::Sequence { node, reference })
            ==> node != reference && reference == next && seen.node->seq_num == node,
{
}

/// Only a request that is not also a reply waits for an answer.
pub proof fn law_only_a_request_waits_for_an_answer(cfg: PacketCfg)
    ensures
        tracked_by(Some(cfg)) <==> cfg.sequenced_request && !cfg.sequenced_reply,
        !tracked_by(None),
{
}

/// Every type is registered as what it is: the four requests wait for an
/// answer, the three replies echo a number, two do neither, one claims both,
/// and what lies past them is not registered. No two selections share a type.
pub proof fn law_every_type_is_registered_as_what_it_is(a: u8, b: u8)
    ensures
        match selected(a).0 {
            MessageType::ConfigGet
            | MessageType::ConfigSet
            | MessageType::ConfigStatusRequest
            | MessageType::NeighborProtoRequest => selected(a).1 == Some(
                PacketCfg { sequenced_reply: false, sequenced_request: true },
            ),
            MessageType::ConfigValue
            | MessageType::ConfigStatusResponse
            | MessageType::NeighborProtoReply => selected(a).1 == Some(
                PacketCfg { sequenced_reply: true, sequenced_request: false },
            ),
            MessageType::ConfigCommit | MessageType::Heartbeat => selected(a).1 == Some(
                PacketCfg { sequenced_reply: false, sequenced_request: false },
            ),
            MessageType::NetAssertQuiet => selected(a).1 == Some(
                PacketCfg { sequenced_reply: true, sequenced_request: true },
            ),
            MessageType::Other(number) => number == 0x4242 && selected(a).1 is None,
            _ => false,
        },
        a < 10 <==> selected(a).1 is Some,
        a <= 10 && b <= 10 && selected(a).0 == selected(b).0 ==> a == b,
{
}

/// A choice among the outstanding numbers is one of them, goes through all of
/// them in turn, and starts over past the last; with nothing outstanding it is
/// zero. A raw number is itself.
pub proof fn law_a_choice_goes_round_the_outstanding(pending: Seq<u32>, which: u8, raw: u32)
    ensures
        SeqChoice::Raw(raw).number(pending) == raw,
        pending.len() == 0 ==> SeqChoice::Outstanding(which).number(pending) == 0,
        pending.len() > 0 ==> pending.contains(SeqChoice::Outstanding(which).number(pending)),
        which < pending.len() ==> SeqChoice::Outstanding(which).number(pending)
            == pending[which as int],
        pending.len() > 0 && which + pending.len() <= 255 ==> SeqChoice::Outstanding(
            (which + pending.len()) as u8,
        ).number(pending) == SeqChoice::Outstanding(which).number(pending),
{
    if pending.len() > 0 {
        let n = pending.len() as int;
        assert(0 <= which as int % n < n);
        assert(pending[which as int % n] == SeqChoice::Outstanding(which).number(pending));
        vstd::arithmetic::div_mod::lemma_mod_add_multiples_vanish(which as int, n);
        if which < n {
            vstd::arithmetic::div_mod::lemma_small_mod(which as nat, n as nat);
        }
    }
}

/// Folding a step into the domain keeps what it is, and everything about it
/// that has no range; what has one is kept up to whole turns of the range.
pub proof fn law_folding_keeps_the_step(step: Step)
    ensures
        step.clamped().in_domain(),
        step.in_domain() ==> step.clamped() == step,
        match (step, step.clamped()) {
            (
                Step::Send { type_index, reply_seq_num, with_callback, body_len },
                Step::Send {
                    type_index: t,
                    reply_seq_num: r,
                    with_callback: w,
                    body_len: b,
                },
            ) => r == reply_seq_num && w == with_callback && (type_index - t) % 11 == 0 && (
            body_len - b) % 33 == 0,
            (
                Step::Receive { type_index, seq, body_len },
                Step::Receive { type_index: t, seq: s, body_len: b },
            ) => s == seq && (type_index - t) % 11 == 0 && (body_len - b) % 33 == 0,
            (Step::Advance { ms }, Step::Advance { ms: m }) => (ms - m) % 1_001 == 0,
            (Step::AlignBeforeSweep { ms }, Step::AlignBeforeSweep { ms: m }) => ms == m || (ms + 1
                - m) % 150 == 0,
            _ => false,
        },
{
}

/// The timer is due from its tick on, for half the clock, and not before it,
/// for the other half.
pub proof fn law_the_timer_is_due_from_its_tick_on(resume: Resume, by: u32)
    ensures
        by < 0x8000_0000 ==> resume.due(((resume.next_sweep_ms + by) % 0x1_0000_0000) as u32),
        1 <= by <= 0x8000_0000 ==> !resume.due(
            ((resume.next_sweep_ms - by) % 0x1_0000_0000) as u32,
        ),
        resume.due(resume.next_sweep_ms),
{
    let m: int = 0x1_0000_0000;
    let t = resume.next_sweep_ms as int;
    if by < 0x8000_0000 {
        let now = (t + by) % m;
        assert((now - t) % m == by) by {
            if t + by < m {
                assert(now == t + by);
            } else {
                assert(now == t + by - m);
            }
        }
    }
    if 1 <= by <= 0x8000_0000 {
        let now = (t - by) % m;
        assert((now - t) % m == m - by) by {
            if t >= by {
                assert(now == t - by);
            } else {
                assert(now == t - by + m);
            }
        }
    }
}

/// Two callbacks that compare as the same are the same: of one kind, with the
/// same type, number, slot and body, as far as that kind has them.
pub proof fn law_different_callbacks_are_told_apart(a: Event, b: Event)
    ensures
        a@ == b@ <==> match (a, b) {
            (
                Event::Process { message_type, seq_num, payload },
                Event::Process { message_type: t, seq_num: n, payload: p },
            ) => message_type == t && seq_num == n && payload@ == p@,
            (Event::Reply { slot, payload }, Event::Reply { slot: t, payload: p }) => slot == t
                && payload@ == p@,
            (Event::TimedOut { slot }, Event::TimedOut { slot: t }) => slot == t,
            (Event::ProcessTimedOut, Event::ProcessTimedOut) => true,
            (Event::Resent { seq_num }, Event::Resent { seq_num: n }) => seq_num == n,
            _ => false,
        },
{
}

/// A send that is written down is drawn back as it was, and nothing of what
/// follows it is touched: a tag, then its fields one after the other, each as
/// wide as it is, numbers little-endian.
pub proof fn law_a_written_send_is_drawn_back(
    type_index: u8,
    reply_seq_num: u32,
    with_callback: bool,
    body_len: u8,
    more: Seq<u8>,
)
    requires
        type_index <= 10,
        body_len <= 32,
    ensures
        drawn_step(
            seq![0u8] + (seq![type_index] + (le_bytes(reply_seq_num as nat, 4) + (seq![
                if with_callback { 1u8 } else { 0u8 },
            ] + (seq![body_len] + more)))),
        ) == (Step::Send { type_index, reply_seq_num, with_callback, body_len }, more),
{
    broadcast use crate::bytes::lemma_le_bytes_len;

    let number = le_bytes(reply_seq_num as nat, 4);
    let flag = if with_callback { 1u8 } else { 0u8 };
    let s4 = seq![body_len] + more;
    let s3 = seq![flag] + s4;
    let s2 = number + s3;
    let s1 = seq![type_index] + s2;
    law_le_bytes_fit(reply_seq_num as nat);
    law_what_is_written_first_is_drawn_first(seq![0u8], s1, 0);
    law_what_is_written_first_is_drawn_first(seq![type_index], s2, 0);
    law_what_is_written_first_is_drawn_first(number, s3, 0);
    law_what_is_written_first_is_drawn_first(seq![flag], s4, 0);
    law_what_is_written_first_is_drawn_first(seq![body_len], more, 0);
}

/// A receive that is written down is drawn back as it was, whether it carries
/// an outstanding number or one of its own.
pub proof fn law_a_written_receive_is_drawn_back(
    type_index: u8,
    which: u8,
    number: u32,
    body_len: u8,
    more: Seq<u8>,
)
    requires
        type_index <= 10,
        body_len <= 32,
    ensures
        drawn_step(
            seq![1u8] + (seq![type_index] + (seq![1u8] + (seq![which] + (seq![body_len] + more)))),
        ) == (Step::Receive { type_index, seq: SeqChoice::Outstanding(which), body_len }, more),
        drawn_step(
            seq![1u8] + (seq![type_index] + (seq![0u8] + (le_bytes(number as nat, 4) + (seq![
                body_len,
            ] + more)))),
        ) == (Step::Receive { type_index, seq: SeqChoice::Raw(number), body_len }, more),
{
    broadcast use crate::bytes::lemma_le_bytes_len;

    let bytes = le_bytes(number as nat, 4);
    let s4 = seq![body_len] + more;
    let s3 = seq![which] + s4;
    let s2 = seq![1u8] + s3;
    let s1 = seq![type_index] + s2;
    let r3 = bytes + s4;
    let r2 = seq![0u8] + r3;
    let r1 = seq![type_index] + r2;
    law_le_bytes_fit(number as nat);
    law_what_is_written_first_is_drawn_first(seq![1u8], s1, 0);
    law_what_is_written_first_is_drawn_first(seq![type_index], s2, 0);
    law_what_is_written_first_is_drawn_first(seq![1u8], s3, 0);
    law_what_is_written_first_is_drawn_first(seq![which], s4, 0);
    law_what_is_written_first_is_drawn_first(seq![body_len], more, 0);
    law_what_is_written_first_is_drawn_first(seq![1u8], r1, 0);
    law_what_is_written_first_is_drawn_first(seq![type_index], r2, 0);
    law_what_is_written_first_is_drawn_first(seq![0u8], r3, 0);
    law_what_is_written_first_is_drawn_first(bytes, s4, 0);
}

/// A wait that is written down is drawn back as it was, by an amount or up to
/// a phase of the sweep.
pub proof fn law_a_written_wait_is_drawn_back(ms: u32, more: Seq<u8>)
    ensures
        ms <= 1_000 ==> drawn_step(seq![2u8] + (le_bytes(ms as nat, 4) + more)) == (
            Step::Advance { ms },
            more,
        ),
        1 <= ms <= 150 ==> drawn_step(seq![3u8] + (le_bytes(ms as nat, 4) + more)) == (
            Step::AlignBeforeSweep { ms },
            more,
        ),
{
    broadcast use crate::bytes::lemma_le_bytes_len;

    let bytes = le_bytes(ms as nat, 4);
    law_le_bytes_fit(ms as nat);
    law_what_is_written_first_is_drawn_first(seq![2u8], bytes + more, 0);
    law_what_is_written_first_is_drawn_first(seq![3u8], bytes + more, 0);
    law_what_is_written_first_is_drawn_first(bytes, more, 0);
}

/// A script is its steps one after the other, until the bytes or the steps run
/// out.
pub proof fn law_a_script_is_drawn_step_by_step(s: Seq<u8>, n: nat)
    ensures
        drawn_steps(s, 0) =~= Seq::empty(),
        drawn_steps(Seq::empty(), n) =~= Seq::empty(),
        s.len() > 0 ==> drawn_steps(s, n + 1).len() == 1 + drawn_steps(drawn_step(s).1, n).len()
            && drawn_steps(s, n + 1)[0] == drawn_step(s).0 && drawn_steps(s, n + 1).skip(1)
            =~= drawn_steps(drawn_step(s).1, n),
        drawn_steps(s, n).len() <= n,
        past_steps(s, 0) == s,
        s.len() > 0 ==> past_steps(s, n + 1) == past_steps(drawn_step(s).1, n),
    decreases n,
{
    if s.len() > 0 && n > 0 {
        law_a_script_is_drawn_step_by_step(drawn_step(s).1, (n - 1) as nat);
    }
}

/// A script may have up to 32 steps, each of which the reference takes.
pub proof fn law_a_script_is_bounded(input: RegistryInput)
    ensures
        input.in_domain() <==> input.steps@.len() <= 32 && forall|i: int|
            0 <= i < input.steps@.len() ==> (#[trigger] input.steps@[i]).in_domain(),
{
}

} // verus!
