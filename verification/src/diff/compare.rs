//! When two captures count as the same, and where they part if they do not.
use vstd::prelude::*;

use crate::bytes::{copied, differ_first_at, first_difference};
use crate::message::MessageType;

verus! {

/// A frame on the wire, and the port it went out on; port 0 is every port at
/// once.
pub type Captured = (u8, Vec<u8>);

/// How two sequences of frames differ.
#[allow(inconsistent_fields)]
#[derive(Debug, Clone, Copy, PartialEq, Eq, Structural)]
pub enum FrameDivergence {
    /// One side sent more frames than the other.
    Count {
        /// How many the reference sent.
        reference: usize,
        /// How many the node sent.
        node: usize,
    },
    /// A frame went out on different ports.
    Port {
        /// Which frame.
        index: usize,
        /// Where the reference sent it.
        reference: u8,
        /// Where the node sent it.
        node: u8,
    },
    /// A frame's bytes differ.
    Byte {
        /// Which frame.
        index: usize,
        /// The port both sent it on.
        port: u8,
        /// The first byte that differs.
        at: usize,
    },
}

/// One captured frame, as a value.
pub open spec fn capture_view(captured: Captured) -> (u8, Seq<u8>) {
    (captured.0, captured.1@)
}

/// A sequence of captured frames, as a value.
pub open spec fn captures_view(captured: Seq<Captured>) -> Seq<(u8, Seq<u8>)> {
    captured.map_values(|c: Captured| capture_view(c))
}

/// The first `n` frames of two captures agree.
pub open spec fn agree_up_to(reference: Seq<Captured>, node: Seq<Captured>, n: int) -> bool {
    forall|i: int|
        0 <= i < n ==> #[trigger] capture_view(reference[i]) == capture_view(node[i])
}

/// The divergence two captures show: in their number before anything else,
/// then in the first frame that differs, its port before its bytes.
pub open spec fn diverges(
    reference: Seq<Captured>,
    node: Seq<Captured>,
    divergence: FrameDivergence,
) -> bool {
    match divergence {
        FrameDivergence::Count { reference: c, node: n } => {
            reference.len() == c && node.len() == n && c != n
        },
        FrameDivergence::Port { index, reference: c, node: n } => {
            &&& reference.len() == node.len()
            &&& index < reference.len()
            &&& agree_up_to(reference, node, index as int)
            &&& reference[index as int].0 == c
            &&& node[index as int].0 == n
            &&& c != n
        },
        FrameDivergence::Byte { index, port, at } => {
            &&& reference.len() == node.len()
            &&& index < reference.len()
            &&& agree_up_to(reference, node, index as int)
            &&& reference[index as int].0 == port
            &&& node[index as int].0 == port
            &&& differ_first_at(
                reference[index as int].1@,
                node[index as int].1@,
                at as int,
            )
        },
    }
}

/// Whether two captures are the same frames, on the same ports, in the same
/// order.
pub fn same_frames(reference: &[Captured], node: &[Captured]) -> (r: Result<(), FrameDivergence>)
    ensures
        r is Ok <==> captures_view(reference@) == captures_view(node@),
        r matches Err(divergence) ==> diverges(reference@, node@, divergence),
{
    if reference.len() != node.len() {
        assert(captures_view(reference@).len() != captures_view(node@).len());
        return Err(FrameDivergence::Count { reference: reference.len(), node: node.len() });
    }
    let mut index: usize = 0;
    while index < reference.len()
        invariant
            reference@.len() == node@.len(),
            index <= reference@.len(),
            agree_up_to(reference@, node@, index as int),
        decreases reference@.len() - index,
    {
        let c = &reference[index];
        let n = &node[index];
        proof {
            assert(captures_view(reference@)[index as int] == capture_view(
                reference@[index as int],
            ));
            assert(captures_view(node@)[index as int] == capture_view(node@[index as int]));
        }
        if c.0 != n.0 {
            return Err(FrameDivergence::Port { index, reference: c.0, node: n.0 });
        }
        match first_difference(c.1.as_slice(), n.1.as_slice()) {
            Some(at) => return Err(FrameDivergence::Byte { index, port: c.0, at }),
            None => {},
        }
        index = index + 1;
    }
    assert(captures_view(reference@) =~= captures_view(node@)) by {
        assert forall|i: int| 0 <= i < reference@.len() implies captures_view(reference@)[i]
            == captures_view(node@)[i] by {
            assert(capture_view(reference@[i]) == capture_view(node@[i]));
        }
    }
    Ok(())
}

/// Why a batch of copies is not a whole number of requests.
#[derive(Debug, Clone, Copy, PartialEq, Eq, Structural)]
pub enum RequestError {
    /// A link-local request goes out once per port, and some of these copies
    /// are left over.
    Incomplete {
        /// How many copies there are.
        copies: usize,
    },
    /// The copies of one request name different nodes.
    Torn {
        /// Which request.
        request: usize,
    },
}

/// Every copy of request `k` names the same node.
pub open spec fn consistent(targets: Seq<u64>, ports: nat, k: int) -> bool {
    forall|i: int|
        k * ports <= i < (k + 1) * ports ==> #[trigger] targets[i] == targets[k * ports as int]
}

/// The requests in a batch of port copies, given the node each copy names: one
/// entry per request rather than per copy.
pub fn requests_of(targets: &[u64], ports: usize) -> (r: Result<Vec<u64>, RequestError>)
    requires
        ports > 0,
    ensures
        match r {
            Ok(requests) => {
                &&& targets@.len() == requests@.len() * ports
                &&& forall|k: int|
                    0 <= k < requests@.len() ==> #[trigger] requests@[k] == targets@[k
                        * ports as int] && consistent(targets@, ports as nat, k)
            },
            Err(RequestError::Incomplete { copies }) => copies == targets@.len() && copies % ports
                != 0,
            Err(RequestError::Torn { request }) => {
                &&& targets@.len() % ports as nat == 0
                &&& (request + 1) * ports <= targets@.len()
                &&& forall|k: int|
                    0 <= k < request ==> #[trigger] consistent(targets@, ports as nat, k)
                &&& !consistent(targets@, ports as nat, request as int)
            },
        },
{
    let copies = targets.len();
    if copies % ports != 0 {
        return Err(RequestError::Incomplete { copies });
    }
    let mut requests: Vec<u64> = Vec::new();
    let mut start: usize = 0;
    assert(0 * ports == 0) by (nonlinear_arith);
    while start < copies
        invariant
            copies == targets@.len(),
            ports > 0,
            copies % ports == 0,
            start <= copies,
            start == requests@.len() * ports,
            forall|k: int|
                0 <= k < requests@.len() ==> #[trigger] requests@[k] == targets@[k * ports as int]
                    && consistent(targets@, ports as nat, k),
        decreases copies - start,
    {
        proof {
            let k = requests@.len() as int;
            let n = copies as int / ports as int;
            assert(copies == n * ports) by (nonlinear_arith)
                requires
                    copies as int % ports as int == 0,
                    ports > 0,
                    n == copies as int / ports as int,
            ;
            assert(k < n) by (nonlinear_arith)
                requires
                    k * ports < n * ports,
                    ports > 0,
            ;
            assert((k + 1) * ports <= n * ports) by (nonlinear_arith)
                requires
                    k < n,
                    ports > 0,
            ;
            assert((k + 1) * ports == k * ports + ports) by (nonlinear_arith);
        }
        let first = targets[start];
        let mut i: usize = 1;
        while i < ports
            invariant
                copies == targets@.len(),
                1 <= i <= ports,
                start + ports <= copies,
                copies % ports == 0,
                start == requests@.len() * ports,
                forall|k: int|
                    0 <= k < requests@.len() ==> #[trigger] requests@[k] == targets@[k
                        * ports as int] && consistent(targets@, ports as nat, k),
                (requests@.len() + 1) * ports == start + ports,
                first == targets@[start as int],
                forall|j: int| start <= j < start + i ==> #[trigger] targets@[j] == first,
            decreases ports - i,
        {
            if targets[start + i] != first {
                assert(!consistent(targets@, ports as nat, requests@.len() as int)) by {
                    assert(targets@[start + i] != targets@[requests@.len() as int * ports as int]);
                }
                assert forall|k: int| 0 <= k < requests@.len() implies #[trigger] consistent(
                    targets@,
                    ports as nat,
                    k,
                ) by {
                    assert(requests@[k] == targets@[k * ports as int]);
                }
                return Err(RequestError::Torn { request: requests.len() });
            }
            i = i + 1;
        }
        assert(consistent(targets@, ports as nat, requests@.len() as int));
        requests.push(first);
        start = start + ports;
    }
    Ok(requests)
}

/// How the requests a step provoked differ.
#[derive(Debug, Clone, Copy, PartialEq, Eq, Structural)]
pub enum RequestDivergence {
    /// The reference's copies are no whole number of requests.
    Copies(RequestError),
    /// The reference asked a node, and the node asked nobody.
    Unasked {
        /// Whom the reference asked.
        target: u64,
    },
    /// The requests differ.
    Frames(FrameDivergence),
    /// The two sent a different number of requests.
    Count {
        /// How many the reference sent.
        reference: usize,
    },
}

/// A slice of captured frames that may not be there, as a value.
pub open spec fn contents(captured: Option<&[Captured]>) -> Option<Seq<Captured>> {
    match captured {
        Some(frames) => Some(frames@),
        None => None,
    }
}

/// The copies are `n` requests, each naming one node.
pub open spec fn whole_requests(targets: Seq<u64>, ports: nat, n: nat) -> bool {
    &&& targets.len() == n * ports
    &&& forall|k: int| 0 <= k < n ==> #[trigger] consistent(targets, ports, k)
}

/// The divergence the requests of one step show: in whether the copies are
/// requests at all, then in whether anything was asked, then in the frames, and
/// last in their number.
pub open spec fn requests_part(
    targets: Seq<u64>,
    copies: Seq<Captured>,
    ours: Option<Seq<Captured>>,
    ports: nat,
    divergence: RequestDivergence,
) -> bool {
    match divergence {
        RequestDivergence::Copies(RequestError::Incomplete { copies: n }) => n == targets.len()
            && n as nat % ports != 0,
        RequestDivergence::Copies(RequestError::Torn { request }) => {
            &&& targets.len() % ports == 0
            &&& (request + 1) * ports <= targets.len()
            &&& forall|k: int| 0 <= k < request ==> #[trigger] consistent(targets, ports, k)
            &&& !consistent(targets, ports, request as int)
        },
        RequestDivergence::Unasked { target } => {
            &&& exists|n: nat| #[trigger] whole_requests(targets, ports, n)
            &&& ours is None
            &&& targets.len() > 0
            &&& target == targets[0]
        },
        RequestDivergence::Frames(frames) => {
            &&& exists|n: nat| #[trigger] whole_requests(targets, ports, n)
            &&& targets.len() > 0
            &&& ours matches Some(stamped)
            &&& diverges(copies, stamped, frames)
        },
        RequestDivergence::Count { reference } => {
            &&& whole_requests(targets, ports, reference as nat)
            &&& reference != 1
            &&& ours matches Some(stamped)
            &&& targets.len() > 0 ==> captures_view(copies) == captures_view(stamped)
        },
    }
}

/// Compare the requests both sides sent in one step, of which there is at most
/// one, and say whom it asks.
///
/// `targets` is whom each copy the reference put on the wire names, `copies`
/// those copies, and `ours` the node's request as it would leave on each of
/// their ports, if it sent one.
pub fn same_requests(
    targets: &[u64],
    copies: &[Captured],
    ours: Option<&[Captured]>,
    ports: usize,
) -> (r: Result<Option<u64>, RequestDivergence>)
    requires
        ports > 0,
    ensures
        r is Ok <==> match ours {
            Some(stamped) => {
                &&& targets@.len() == ports
                &&& forall|i: int| 0 <= i < ports ==> #[trigger] targets@[i] == targets@[0]
                &&& captures_view(copies@) == captures_view(stamped@)
            },
            None => targets@.len() == 0,
        },
        r matches Ok(asked) ==> asked == if ours is Some {
            Some(targets@[0])
        } else {
            None
        },
        r matches Err(divergence) ==> requests_part(
            targets@,
            copies@,
            contents(ours),
            ports as nat,
            divergence,
        ),
{
    let asked = match requests_of(targets, ports) {
        Ok(asked) => asked,
        Err(error) => {
            proof {
                assert(0 * ports == 0) by (nonlinear_arith);
                assert((0 + 1) * ports == ports) by (nonlinear_arith);
                match error {
                    RequestError::Torn { request } => {
                        if targets@.len() == ports {
                            assert(request == 0) by (nonlinear_arith)
                                requires
                                    (request + 1) * ports <= ports,
                                    ports > 0,
                            ;
                            if forall|i: int|
                                0 <= i < ports ==> #[trigger] targets@[i] == targets@[0] {
                                assert(consistent(targets@, ports as nat, 0));
                            }
                        }
                        if targets@.len() == 0 {
                            assert(false) by (nonlinear_arith)
                                requires
                                    (request + 1) * ports <= 0,
                                    ports > 0,
                            ;
                        }
                    },
                    RequestError::Incomplete { copies: n } => {
                        if n == ports {
                            assert(n % ports == 0) by (nonlinear_arith)
                                requires
                                    n == ports,
                                    ports > 0,
                            ;
                        }
                        if n == 0 {
                            assert(0usize % ports == 0) by (nonlinear_arith)
                                requires
                                    ports > 0,
                            ;
                        }
                    },
                }
            }
            return Err(RequestDivergence::Copies(error));
        },
    };
    proof {
        assert(0 * ports == 0) by (nonlinear_arith);
        assert((0 + 1) * ports == ports) by (nonlinear_arith);
        assert forall|k: int| 0 <= k < asked@.len() implies #[trigger] consistent(
            targets@,
            ports as nat,
            k,
        ) by {
            assert(asked@[k] == targets@[k * ports as int]);
        }
        assert(whole_requests(targets@, ports as nat, asked@.len()));
        if asked@.len() > 0 {
            assert(asked@[0] == targets@[0int * ports as int]);
            assert(consistent(targets@, ports as nat, 0));
            assert(targets@.len() >= ports) by (nonlinear_arith)
                requires
                    targets@.len() == asked@.len() * ports,
                    asked@.len() > 0,
            ;
        }
        if asked@.len() != 1 && targets@.len() == ports {
            assert(false) by (nonlinear_arith)
                requires
                    targets@.len() == asked@.len() * ports,
                    targets@.len() == ports,
                    asked@.len() != 1,
                    ports > 0,
            ;
        }
    }
    match ours {
        None => {
            if asked.len() > 0 {
                Err(RequestDivergence::Unasked { target: asked[0] })
            } else {
                Ok(None)
            }
        },
        Some(stamped) => {
            if asked.len() > 0 {
                match same_frames(copies, stamped) {
                    Ok(()) => {},
                    Err(divergence) => return Err(RequestDivergence::Frames(divergence)),
                }
            }
            if asked.len() != 1 {
                return Err(RequestDivergence::Count { reference: asked.len() });
            }
            Ok(Some(asked[0]))
        },
    }
}

/// A message on the wire: its type, and the bytes it is compared by.
pub type Typed = (MessageType, Vec<u8>);

/// The bytes of the messages of one type, in order.
pub open spec fn of_type(messages: Seq<Typed>, wanted: MessageType) -> Seq<Seq<u8>>
    decreases messages.len(),
{
    if messages.len() == 0 {
        Seq::empty()
    } else if messages.last().0 == wanted {
        of_type(messages.drop_last(), wanted).push(messages.last().1@)
    } else {
        of_type(messages.drop_last(), wanted)
    }
}

/// Several byte sequences, as a value.
pub open spec fn bytes_view(bytes: Seq<Vec<u8>>) -> Seq<Seq<u8>> {
    bytes.map_values(|b: Vec<u8>| b@)
}

/// The bytes of the messages of one type, in order.
#[must_use]
pub fn frames_of(messages: &[Typed], wanted: MessageType) -> (r: Vec<Vec<u8>>)
    ensures
        bytes_view(r@) == of_type(messages@, wanted),
{
    let mut found: Vec<Vec<u8>> = Vec::new();
    let mut index: usize = 0;
    assert(bytes_view(found@) =~= of_type(messages@.take(0), wanted));
    while index < messages.len()
        invariant
            index <= messages@.len(),
            bytes_view(found@) == of_type(messages@.take(index as int), wanted),
        decreases messages@.len() - index,
    {
        proof {
            assert(messages@.take(index + 1).drop_last() =~= messages@.take(index as int));
        }
        if messages[index].0 == wanted {
            let ghost before = found@;
            found.push(copied(messages[index].1.as_slice()));
            assert(bytes_view(found@) =~= bytes_view(before).push(messages@[index as int].1@));
        }
        index = index + 1;
    }
    assert(messages@.take(index as int) =~= messages@);
    found
}

/// Whether bytes that were decoded and encoded again are the front of the
/// bytes they were decoded from.
#[must_use]
pub fn round_trips(bytes: &[u8], again: &[u8]) -> (r: bool)
    ensures
        r <==> again@.len() <= bytes@.len() && again@ == bytes@.take(again@.len() as int),
{
    if again.len() > bytes.len() {
        return false;
    }
    let front = vstd::slice::slice_subrange(bytes, 0, again.len());
    assert(front@ =~= bytes@.take(again@.len() as int));
    first_difference(front, again).is_none()
}

/// Two captures look the same only if they have the same port and the same
/// bytes, and two runs of them only if they look the same one by one.
pub proof fn law_captures_are_told_apart_by_port_and_bytes(
    a: Seq<Captured>,
    b: Seq<Captured>,
)
    ensures
        captures_view(a) == captures_view(b) <==> a.len() == b.len() && forall|i: int|
            0 <= i < a.len() ==> (#[trigger] a[i]).0 == b[i].0 && a[i].1@ == b[i].1@,
        captures_view(a).len() == a.len(),
        a.len() == b.len() ==> (agree_up_to(a, b, a.len() as int) <==> captures_view(a)
            == captures_view(b)),
{
    if captures_view(a) == captures_view(b) {
        assert(captures_view(a).len() == a.len() && captures_view(b).len() == b.len());
        assert forall|i: int| 0 <= i < a.len() implies (#[trigger] a[i]).0 == b[i].0 && a[i].1@
            == b[i].1@ by {
            assert(captures_view(a)[i] == captures_view(b)[i]);
        }
    }
    if a.len() == b.len() && forall|i: int|
        0 <= i < a.len() ==> (#[trigger] a[i]).0 == b[i].0 && a[i].1@ == b[i].1@ {
        assert(captures_view(a) =~= captures_view(b));
    }
    if a.len() == b.len() && agree_up_to(a, b, a.len() as int) {
        assert forall|i: int| 0 <= i < a.len() implies (#[trigger] a[i]).0 == b[i].0 && a[i].1@
            == b[i].1@ by {
            assert(capture_view(a[i]) == capture_view(b[i]));
        }
    }
}

/// Whatever is said to differ does differ: no divergence is reported of two
/// runs that are the same, and the one reported is the first there is.
pub proof fn law_a_reported_divergence_is_real(
    reference: Seq<Captured>,
    node: Seq<Captured>,
    divergence: FrameDivergence,
)
    requires
        diverges(reference, node, divergence),
    ensures
        captures_view(reference) != captures_view(node),
        match divergence {
            FrameDivergence::Count { reference: c, node: n } => c == reference.len() && n
                == node.len() && c != n,
            FrameDivergence::Port { index, reference: c, node: n } => {
                &&& reference.len() == node.len()
                &&& reference[index as int].0 == c && node[index as int].0 == n && c != n
                &&& forall|i: int|
                    0 <= i < index ==> (#[trigger] reference[i]).0 == node[i].0
                        && reference[i].1@ == node[i].1@
            },
            FrameDivergence::Byte { index, port, at } => {
                &&& reference.len() == node.len()
                &&& reference[index as int].0 == port && node[index as int].0 == port
                &&& reference[index as int].1@.take(at as int) == node[index as int].1@.take(
                    at as int,
                )
                &&& reference[index as int].1@ != node[index as int].1@
                &&& forall|i: int|
                    0 <= i < index ==> (#[trigger] reference[i]).0 == node[i].0
                        && reference[i].1@ == node[i].1@
            },
        },
{
    law_captures_are_told_apart_by_port_and_bytes(reference, node);
    match divergence {
        FrameDivergence::Count { .. } => {},
        FrameDivergence::Port { index, .. } => {
            assert(reference[index as int].0 != node[index as int].0);
            assert forall|i: int| 0 <= i < index implies (#[trigger] reference[i]).0 == node[i].0
                && reference[i].1@ == node[i].1@ by {
                assert(capture_view(reference[i]) == capture_view(node[i]));
            }
        },
        FrameDivergence::Byte { index, at, .. } => {
            let a = reference[index as int].1@;
            let b = node[index as int].1@;
            assert(a.take(at as int) =~= a.subrange(0, at as int));
            assert(b.take(at as int) =~= b.subrange(0, at as int));
            crate::bytes::law_there_is_one_first_difference(a, b, at as int, at as int);
            assert forall|i: int| 0 <= i < index implies (#[trigger] reference[i]).0 == node[i].0
                && reference[i].1@ == node[i].1@ by {
                assert(capture_view(reference[i]) == capture_view(node[i]));
            }
        },
    }
}

/// The messages of a type are all those of that type, and no others, in order.
pub proof fn law_messages_are_found_by_their_type(messages: Seq<Typed>, wanted: MessageType)
    ensures
        of_type(messages, wanted) =~= messages.filter(|m: Typed| m.0 == wanted).map_values(
            |m: Typed| m.1@,
        ),
    decreases messages.len(),
{
    reveal(Seq::filter);
    if messages.len() > 0 {
        law_messages_are_found_by_their_type(messages.drop_last(), wanted);
    }
}

/// A request went out whole if it went out once on every port, to the same
/// node each time.
pub proof fn law_a_whole_request_names_one_node(targets: Seq<u64>, ports: nat, n: nat, k: int, i: int)
    requires
        whole_requests(targets, ports, n),
        0 <= k < n,
        0 <= i < ports,
    ensures
        targets.len() == n * ports,
        targets[k * ports + i] == targets[k * ports],
{
    assert(consistent(targets, ports, k));
    assert((k + 1) * ports == k * ports + ports) by (nonlinear_arith);
}

/// What is said to be wrong with the requests is wrong: no part of it holds of
/// one whole request that both sides sent alike, nor of none at all.
pub proof fn law_nothing_is_wrong_with_one_request_sent_alike(
    targets: Seq<u64>,
    copies: Seq<Captured>,
    stamped: Seq<Captured>,
    divergence: RequestDivergence,
)
    requires
        targets.len() == 2,
        targets[0] == targets[1],
        captures_view(copies) == captures_view(stamped),
    ensures
        !requests_part(targets, copies, Some(stamped), 2, divergence),
        !requests_part(Seq::empty(), copies, None, 2, divergence),
        divergence matches RequestDivergence::Unasked { target } ==> requests_part(
            targets,
            copies,
            None,
            2,
            divergence,
        ) ==> target == targets[0],
{
    match divergence {
        RequestDivergence::Frames(frames) => {
            if diverges(copies, stamped, frames) {
                law_a_reported_divergence_is_real(copies, stamped, frames);
            }
        },
        RequestDivergence::Copies(RequestError::Torn { request }) => {
            if requests_part(targets, copies, Some(stamped), 2, divergence) {
                assert(request == 0);
                assert(consistent(targets, 2, 0));
            }
        },
        _ => {},
    }
}

/// A torn request is the first one: every request before it went to one node
/// on every port, and its own copies did not all name the same node.
pub proof fn law_a_torn_request_is_the_first_one(
    targets: Seq<u64>,
    copies: Seq<Captured>,
    ours: Option<Seq<Captured>>,
    ports: nat,
    request: usize,
    k: int,
    i: int,
)
    requires
        requests_part(
            targets,
            copies,
            ours,
            ports,
            RequestDivergence::Copies(RequestError::Torn { request }),
        ),
        0 <= k < request,
        0 <= i < ports,
    ensures
        targets[k * ports + i] == targets[k * ports],
        exists|j: int|
            request * ports <= j < (request + 1) * ports && #[trigger] targets[j] != targets[request
                * ports],
{
    assert(consistent(targets, ports, k));
    assert((k + 1) * ports == k * ports + ports) by (nonlinear_arith);
}

} // verus!
