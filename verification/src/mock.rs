//! A PHY that replays a script and records what was sent.
//!
//! Enough to drive a whole node with no hardware: a test writes the frames the
//! network would deliver, runs the node, and reads back everything it
//! transmitted, with the egress port each copy went to.
use vstd::prelude::*;

use crate::bytes::{copied, overlay, put, shorter};
use crate::links::{first_ports, in_mask, is_in_mask, with_link};
use crate::port::{Egress, Phy};
use vstd::slice::slice_subrange;

verus! {

/// One thing the network does.
#[derive(Debug, Clone)]
pub enum Script {
    /// A frame arrives on this port.
    Receive {
        /// Ingress port, 1-based.
        port: u8,
        /// The frame.
        frame: Vec<u8>,
    },
    /// Nothing arrives for this long. Advances the mock clock, so timers fire.
    Idle {
        /// Milliseconds.
        ms: u64,
    },
}

/// Why the mock stopped.
#[derive(Debug, Clone, Copy, PartialEq, Eq, Structural)]
pub enum MockError {
    /// The script ran out. Not a failure: it is how a test ends a run.
    ScriptFinished,
}

/// A frame the node transmitted.
#[derive(Debug, Clone, PartialEq, Eq)]
pub struct Sent {
    /// Where it went.
    pub egress: Egress,
    /// The bytes, exactly as handed to the PHY.
    pub frame: Vec<u8>,
}

/// What the next step of a script does.
#[derive(Debug, Clone, Copy, PartialEq, Eq, Structural)]
pub enum Replayed {
    /// A frame arrived and was copied into the buffer.
    Frame {
        /// The port it arrived on.
        port: u8,
        /// How many of its bytes the buffer holds.
        len: usize,
    },
    /// Time passes: advance the clock and come back.
    Idle {
        /// Milliseconds.
        ms: u64,
    },
}

/// The scripted side of a [`MockPhy`]: its ports, its links, and what is still
/// to happen on them.
#[derive(Debug)]
pub struct Network {
    port_count: u8,
    script: Vec<Script>,
    next: usize,
    /// Link state per port, bit 0 for port 1.
    link_mask: u16,
}

/// A PHY backed by a script.
#[derive(Debug)]
pub struct MockPhy {
    /// What the node is connected to.
    pub network: Network,
    /// Everything the node transmitted, in order.
    pub sent: Vec<Sent>,
}

/// Which of the transmitted frames went to `egress`, in order.
pub open spec fn frames_to(sent: Seq<Sent>, egress: Egress) -> Seq<Seq<u8>>
    decreases sent.len(),
{
    if sent.len() == 0 {
        Seq::empty()
    } else {
        let before = frames_to(sent.drop_last(), egress);
        if sent.last().egress == egress {
            before.push(sent.last().frame@)
        } else {
            before
        }
    }
}

impl MockPhy {
    /// Which links are up.
    pub closed spec fn links(&self) -> u16 {
        self.network.link_mask
    }

    /// The script.
    pub closed spec fn steps(&self) -> Seq<Script> {
        self.network.script@
    }

    /// Everything the node transmitted, in order.
    pub open spec fn transmitted(&self) -> Seq<Sent> {
        self.sent@
    }

    /// How many steps of the script have been replayed.
    pub closed spec fn replayed(&self) -> nat {
        self.network.next as nat
    }

    /// No step is replayed that the script does not have.
    pub open spec fn well_formed(&self) -> bool {
        self.replayed() <= self.steps().len()
    }

    /// A PHY with `port_count` ports, all up, that will replay `script` and
    /// then stop.
    #[must_use]
    pub fn new(port_count: u8, script: Vec<Script>) -> (r: Self)
        requires
            port_count < 16,
        ensures
            r.ports() == port_count,
            r.steps() == script@,
            r.replayed() == 0,
            r.transmitted() == Seq::<Sent>::empty(),
            forall|p: u8| #[trigger] in_mask(r.links(), p) <==> 1 <= p <= port_count,
            r.well_formed(),
    {
        let network = Network {
            port_count,
            script,
            next: 0,
            link_mask: first_ports(port_count),
        };
        MockPhy { network, sent: Vec::new() }
    }

    /// Bring a port up or down. Ports are 1-based.
    pub fn set_link_up(&mut self, port: u8, up: bool)
        ensures
            forall|p: u8|
                #[trigger] in_mask(final(self).links(), p) == if p == port && 1 <= p <= 16 {
                    up
                } else {
                    in_mask(old(self).links(), p)
                },
            final(self).ports() == old(self).ports(),
            final(self).steps() == old(self).steps(),
            final(self).replayed() == old(self).replayed(),
            final(self).transmitted() == old(self).transmitted(),
    {
        self.network.link_mask = with_link(self.network.link_mask, port, up);
    }

    /// The frames sent to a particular egress, in order.
    #[must_use]
    pub fn sent_to(&self, egress: Egress) -> (r: Vec<&[u8]>)
        ensures
            r@.map_values(|frame: &[u8]| frame@) == frames_to(self.transmitted(), egress),
    {
        let mut found: Vec<&[u8]> = Vec::new();
        let mut i: usize = 0;
        while i < self.sent.len()
            invariant
                i <= self.sent@.len(),
                found@.map_values(|frame: &[u8]| frame@) =~= frames_to(
                    self.sent@.subrange(0, i as int),
                    egress,
                ),
            decreases self.sent@.len() - i,
        {
            proof {
                assert(self.sent@.subrange(0, i + 1).drop_last() =~= self.sent@.subrange(
                    0,
                    i as int,
                ));
            }
            if self.sent[i].egress == egress {
                found.push(self.sent[i].frame.as_slice());
            }
            i = i + 1;
        }
        assert(self.sent@.subrange(0, i as int) =~= self.sent@);
        found
    }

    /// Record a frame handed to the PHY.
    pub fn send(&mut self, frame: &[u8], egress: Egress)
        ensures
            final(self).transmitted().len() == old(self).transmitted().len() + 1,
            final(self).transmitted().drop_last() == old(self).transmitted(),
            final(self).transmitted().last().egress == egress,
            final(self).transmitted().last().frame@ == frame@,
            final(self).ports() == old(self).ports(),
            final(self).links() == old(self).links(),
            final(self).steps() == old(self).steps(),
            final(self).replayed() == old(self).replayed(),
    {
        self.sent.push(Sent { egress, frame: copied(frame) });
        assert(self.sent@.drop_last() =~= old(self).sent@);
    }

    /// Replay the next step of the script. A frame longer than `buf` is cut to
    /// it.
    pub fn receive(&mut self, buf: &mut [u8]) -> (r: Result<Replayed, MockError>)
        requires
            old(self).well_formed(),
        ensures
            final(self).well_formed(),
            final(self).ports() == old(self).ports(),
            final(self).links() == old(self).links(),
            final(self).steps() == old(self).steps(),
            final(self).transmitted() == old(self).transmitted(),
            r is Err <==> old(self).replayed() == old(self).steps().len(),
            final(self).replayed() == old(self).replayed() + if r is Err { 0nat } else { 1nat },
            r matches Ok(step) ==> match old(self).steps()[old(self).replayed() as int] {
                Script::Receive { port, frame } => {
                    let len = shorter(frame@.len(), old(buf)@.len());
                    &&& step == (Replayed::Frame { port, len: len as usize })
                    &&& final(buf)@ == overlay(old(buf)@, 0, frame@.subrange(0, len as int))
                },
                Script::Idle { ms } => step == (Replayed::Idle { ms }) && final(buf)@ == old(
                    buf,
                )@,
            },
            r is Err ==> final(buf)@ == old(buf)@,
    {
        if self.network.next >= self.network.script.len() {
            return Err(MockError::ScriptFinished);
        }
        let at = self.network.next;
        self.network.next = at + 1;
        match &self.network.script[at] {
            Script::Receive { port, frame } => {
                let len = if frame.len() <= buf.len() {
                    frame.len()
                } else {
                    buf.len()
                };
                put(buf, 0, slice_subrange(frame.as_slice(), 0, len));
                Ok(Replayed::Frame { port: *port, len })
            },
            Script::Idle { ms } => Ok(Replayed::Idle { ms: *ms }),
        }
    }
}

impl Phy for MockPhy {
    closed spec fn ports(&self) -> u8 {
        self.network.port_count
    }

    fn port_count(&self) -> (r: u8) {
        self.network.port_count
    }

    fn link_up(&self, port: u8) -> (r: bool)
        ensures
            r <==> in_mask(self.links(), port) && port <= self.ports(),
    {
        port <= self.network.port_count && is_in_mask(self.network.link_mask, port)
    }
}

/// The frames sent to an egress are those transmitted with that egress, all of
/// them and no others, in the order they were transmitted.
pub proof fn law_sent_frames_are_found_by_their_egress(sent: Seq<Sent>, egress: Egress)
    ensures
        frames_to(sent, egress) =~= sent.filter(|s: Sent| s.egress == egress).map_values(
            |s: Sent| s.frame@,
        ),
    decreases sent.len(),
{
    reveal(Seq::filter);
    if sent.len() > 0 {
        law_sent_frames_are_found_by_their_egress(sent.drop_last(), egress);
    }
}

/// A script is never replayed past its end.
pub proof fn law_a_script_is_not_replayed_past_its_end(phy: MockPhy)
    requires
        phy.well_formed(),
    ensures
        phy.replayed() <= phy.steps().len(),
        phy.transmitted() == phy.sent@,
{
}

} // verus!
