//! Comparing CBOR codecs: a script of encoder calls into a buffer that is often
//! too small, and a parse of arbitrary bytes.
//!
//! The two halves are independent: nothing the encoder writes is fed to the
//! parser, because a round trip would only ever exercise well-formed bytes.
use vstd::prelude::*;

use crate::bytes::{differ_first_at, first_difference, le, le_bytes};
use crate::diff::configuration::{bounded_bytes, drawn_bounded, past_bounded};
use crate::fuzz::{
    draw_i64, draw_in_range, draw_u32, draw_u64, in_range, padded, past_range, rest, source,
    unread,
};
use arbitrary::Unstructured;

verus! {

/// Largest encoder output buffer a script may ask for.
pub const MAX_BUFFER: usize = 160;

/// Largest buffer a string copy may be given.
pub const MAX_COPY: usize = 80;

/// Deepest a script will nest containers, which is as many encoders as the
/// reference is given, less one.
pub const MAX_SCRIPT_DEPTH: usize = 4;

/// Longest string a script carries, and longest payload.
pub const MAX_STRING: usize = 48;

/// Most calls a script makes.
pub const MAX_OPS: usize = 12;

/// One encoder call.
#[derive(Debug)]
pub enum Op {
    /// An unsigned integer.
    Uint(u64),
    /// A signed integer.
    Int(i64),
    /// A float, carried as bits so that a NaN compares as itself.
    Float(u32),
    /// A text string, of any bytes.
    Text(Vec<u8>),
    /// A byte string.
    Bytes(Vec<u8>),
    /// Open a map.
    OpenMap(u8),
    /// Open an array.
    OpenArray(u8),
    /// Close the innermost container.
    Close,
}

/// An [`Op`], as a value.
pub enum OpView {
    /// An unsigned integer.
    Uint(u64),
    /// A signed integer.
    Int(i64),
    /// A float's bits.
    Float(u32),
    /// A text string.
    Text(Seq<u8>),
    /// A byte string.
    Bytes(Seq<u8>),
    /// Open a map.
    OpenMap(u8),
    /// Open an array.
    OpenArray(u8),
    /// Close the innermost container.
    Close,
}

impl View for Op {
    type V = OpView;

    open spec fn view(&self) -> OpView {
        match self {
            Op::Uint(v) => OpView::Uint(*v),
            Op::Int(v) => OpView::Int(*v),
            Op::Float(v) => OpView::Float(*v),
            Op::Text(v) => OpView::Text(v@),
            Op::Bytes(v) => OpView::Bytes(v@),
            Op::OpenMap(v) => OpView::OpenMap(*v),
            Op::OpenArray(v) => OpView::OpenArray(*v),
            Op::Close => OpView::Close,
        }
    }
}

impl OpView {
    /// Whether this opens a container.
    pub open spec fn opens(self) -> bool {
        self is OpenMap || self is OpenArray
    }
}

/// A call, as it is drawn.
pub open spec fn drawn_op(s: Seq<u8>) -> (OpView, Seq<u8>) {
    let choice = in_range(s, 0, 7);
    let s1 = past_range(s, 7);
    if choice == 0 {
        (OpView::Uint(le(padded(s1, 8)) as u64), rest(s1, 8))
    } else if choice == 1 {
        (OpView::Int((le(padded(s1, 8)) as u64) as i64), rest(s1, 8))
    } else if choice == 2 {
        (OpView::Float(le(padded(s1, 4)) as u32), rest(s1, 4))
    } else if choice == 3 {
        (OpView::Text(drawn_bounded(s1, 48)), past_bounded(s1, 48))
    } else if choice == 4 {
        (OpView::Bytes(drawn_bounded(s1, 48)), past_bounded(s1, 48))
    } else if choice == 5 {
        (OpView::OpenMap(in_range(s1, 0, 4) as u8), past_range(s1, 4))
    } else if choice == 6 {
        (OpView::OpenArray(in_range(s1, 0, 4) as u8), past_range(s1, 4))
    } else {
        (OpView::Close, s1)
    }
}

/// `n` calls, as they are drawn, and what that leaves.
pub open spec fn drawn_ops(s: Seq<u8>, n: nat) -> (Seq<OpView>, Seq<u8>)
    decreases n,
{
    if n == 0 {
        (Seq::empty(), s)
    } else {
        let (op, left) = drawn_op(s);
        let (more, end) = drawn_ops(left, (n - 1) as nat);
        (seq![op] + more, end)
    }
}

/// Calls, as values.
pub open spec fn ops_view(ops: Seq<Op>) -> Seq<OpView> {
    ops.map_values(|op: Op| op@)
}

impl Op {
    /// Draw a call.
    pub fn arbitrary(u: &mut Unstructured<'_>) -> (r: Self)
        ensures
            (r@, unread(final(u))) == drawn_op(unread(old(u))),
    {
        match draw_in_range(u, 0, 7) {
            0 => Op::Uint(draw_u64(u)),
            1 => Op::Int(draw_i64(u)),
            2 => Op::Float(draw_u32(u)),
            3 => Op::Text(bounded_bytes(u, MAX_STRING)),
            4 => Op::Bytes(bounded_bytes(u, MAX_STRING)),
            5 => Op::OpenMap(draw_in_range(u, 0, 4) as u8),
            6 => Op::OpenArray(draw_in_range(u, 0, 4) as u8),
            _ => Op::Close,
        }
    }
}

/// An encoder script plus a payload to parse.
#[derive(Debug)]
pub struct CborInput {
    /// Size of the encoder's output buffer, at most [`MAX_BUFFER`].
    pub buffer_len: usize,
    /// Calls to make, in order.
    pub ops: Vec<Op>,
    /// Bytes to parse. Anything at all.
    pub payload: Vec<u8>,
    /// Size of the buffer a string is copied into, at most [`MAX_COPY`].
    pub copy_len: usize,
}

impl CborInput {
    /// Whether this is the input drawn from `s`.
    pub open spec fn drawn_from(&self, s: Seq<u8>) -> bool {
        let s1 = past_range(s, 160);
        let s2 = past_range(s1, 80);
        let (ops, s3) = drawn_ops(past_range(s2, 12), in_range(s2, 0, 12) as nat);
        &&& self.buffer_len == in_range(s, 0, 160)
        &&& self.copy_len == in_range(s1, 0, 80)
        &&& ops_view(self.ops@) == ops
        &&& self.payload@ == drawn_bounded(s3, 48)
    }

    /// What drawing an input leaves of `s`.
    pub open spec fn past(s: Seq<u8>) -> Seq<u8> {
        let s2 = past_range(past_range(s, 160), 80);
        past_bounded(drawn_ops(past_range(s2, 12), in_range(s2, 0, 12) as nat).1, 48)
    }

    /// Draw an input.
    pub fn arbitrary(u: &mut Unstructured<'_>) -> (r: Self)
        ensures
            r.drawn_from(unread(old(u))),
            unread(final(u)) == Self::past(unread(old(u))),
    {
        let buffer_len = draw_in_range(u, 0, 160) as usize;
        let copy_len = draw_in_range(u, 0, 80) as usize;
        let op_count = draw_in_range(u, 0, 12);
        let ghost first = unread(u);
        let mut ops: Vec<Op> = Vec::new();
        let mut done: u64 = 0;
        assert(ops_view(ops@) =~= Seq::<OpView>::empty());
        while done < op_count
            invariant
                done <= op_count,
                ({
                    let (more, left) = drawn_ops(unread(u), (op_count - done) as nat);
                    let (all, end) = drawn_ops(first, op_count as nat);
                    ops_view(ops@) + more =~= all && left == end
                }),
            decreases op_count - done,
        {
            let ghost before = ops_view(ops@);
            let ghost s = unread(u);
            let op = Op::arbitrary(u);
            ops.push(op);
            proof {
                assert(ops_view(ops@) =~= before.push(op@));
                assert(before + drawn_ops(s, (op_count - done) as nat).0 =~= ops_view(ops@)
                    + drawn_ops(unread(u), (op_count - done - 1) as nat).0);
            }
            done = done + 1;
        }
        let payload = bounded_bytes(u, MAX_STRING);
        CborInput { buffer_len, ops, payload, copy_len }
    }

    /// The input a seed file holds.
    pub fn from_seed(seed: &[u8]) -> (r: Self)
        ensures
            r.drawn_from(seed@),
    {
        let mut u = source(seed);
        CborInput::arbitrary(&mut u)
    }
}

/// Whether a call has to be left out on both sides at a nesting depth: closing
/// with nothing open, and opening past the script's depth, are two calls the
/// reference cannot be asked to make.
pub open spec fn skips(op: OpView, depth: int) -> bool {
    if op.opens() {
        depth >= MAX_SCRIPT_DEPTH
    } else if op is Close {
        depth <= 0
    } else {
        false
    }
}

/// How deep a script is after its first `n` calls.
pub open spec fn depth_after(ops: Seq<OpView>, n: nat) -> int
    decreases n,
{
    if n == 0 {
        0
    } else {
        let before = depth_after(ops, (n - 1) as nat);
        let op = ops[n - 1];
        if skips(op, before) {
            before
        } else if op.opens() {
            before + 1
        } else if op is Close {
            before - 1
        } else {
            before
        }
    }
}

/// What becomes of one call of a script.
#[derive(Debug, Clone, Copy, PartialEq, Eq, Structural)]
pub struct Planned {
    /// Leave it out on both sides.
    pub skip: bool,
    /// How deep the script is when it is made, which is the encoder it is made
    /// on.
    pub depth: usize,
}

/// Which calls of a script are left out, and on which encoder the others are
/// made. The two sides stay in step for everything after a call that is left
/// out.
#[must_use]
pub fn skipped(ops: &[Op]) -> (r: Vec<Planned>)
    ensures
        r@.len() == ops@.len(),
        forall|i: int|
            0 <= i < ops@.len() ==> #[trigger] r@[i] == (Planned {
                skip: skips(ops@[i]@, depth_after(ops_view(ops@), i as nat)),
                depth: depth_after(ops_view(ops@), i as nat) as usize,
            }),
        forall|i: int| 0 <= i < ops@.len() ==> (#[trigger] r@[i]).depth <= MAX_SCRIPT_DEPTH,
{
    let mut plan: Vec<Planned> = Vec::new();
    let mut depth: usize = 0;
    let mut i: usize = 0;
    while i < ops.len()
        invariant
            i <= ops@.len(),
            plan@.len() == i,
            depth <= MAX_SCRIPT_DEPTH,
            depth == depth_after(ops_view(ops@), i as nat),
            forall|j: int|
                0 <= j < i ==> #[trigger] plan@[j] == (Planned {
                    skip: skips(ops@[j]@, depth_after(ops_view(ops@), j as nat)),
                    depth: depth_after(ops_view(ops@), j as nat) as usize,
                }),
            forall|j: int| 0 <= j < i ==> (#[trigger] plan@[j]).depth <= MAX_SCRIPT_DEPTH,
        decreases ops@.len() - i,
    {
        assert(ops_view(ops@)[i as int] == ops@[i as int]@);
        let at = depth;
        let skip = match &ops[i] {
            Op::OpenMap(_) | Op::OpenArray(_) => {
                let full = depth == MAX_SCRIPT_DEPTH;
                if !full {
                    depth = depth + 1;
                }
                full
            },
            Op::Close => {
                let empty = depth == 0;
                if !empty {
                    depth = depth - 1;
                }
                empty
            },
            _ => false,
        };
        plan.push(Planned { skip, depth: at });
        i = i + 1;
    }
    plan
}

/// A script never closes more than it opened, and never nests deeper than the
/// encoders it is given.
pub proof fn law_a_script_stays_within_its_encoders(ops: Seq<OpView>, n: nat)
    requires
        n <= ops.len(),
    ensures
        0 <= depth_after(ops, n) <= MAX_SCRIPT_DEPTH,
    decreases n,
{
    if n > 0 {
        law_a_script_stays_within_its_encoders(ops, (n - 1) as nat);
    }
}

/// What a CBOR call can fail with.
#[derive(Debug, Clone, Copy, PartialEq, Eq, Structural)]
pub enum CborError {
    /// The length is not known.
    UnknownLength,
    /// The bytes ended early.
    UnexpectedEof,
    /// A break came where none may.
    UnexpectedBreak,
    /// The type is not known.
    UnknownType,
    /// The type is not legal there.
    IllegalType,
    /// The number is not legal.
    IllegalNumber,
    /// The simple type is not legal.
    IllegalSimpleType,
    /// A container was given too many items.
    TooManyItems,
    /// A container was given too few.
    TooFewItems,
    /// The data is too large.
    DataTooLarge,
    /// The buffer is too small.
    OutOfMemory,
}

/// What one call did to an encoder.
#[derive(Debug, Clone, Copy, PartialEq, Eq, Structural)]
pub struct EncodeStep {
    /// What it failed with, if it failed.
    pub error: Option<CborError>,
    /// Where it left the cursor.
    pub buffer_size: usize,
    /// How many bytes the buffer has been short of so far.
    pub extra_needed: usize,
}

/// How two encoders differ.
#[derive(Debug, Clone, Copy, PartialEq, Eq, Structural)]
pub enum EncodeDivergence {
    /// The scripts were not the same length.
    Length,
    /// This call was left out on one side only.
    Skipped(usize),
    /// This call returned different errors.
    Error(usize),
    /// This call left a different shortfall.
    Shortfall(usize),
    /// This call left a different cursor.
    Cursor(usize),
    /// The buffers differ, first at this byte.
    Buffer(usize),
}

/// Whether one call did the same to both encoders. Once a buffer has
/// overflowed nothing more is written to it, and where the cursor stands no
/// longer means anything.
pub open spec fn steps_agree(reference: Option<EncodeStep>, node: Option<EncodeStep>) -> bool {
    match (reference, node) {
        (None, None) => true,
        (Some(c), Some(n)) => c.error == n.error && c.extra_needed == n.extra_needed && (
        n.extra_needed == 0 ==> c.buffer_size == n.buffer_size),
        _ => false,
    }
}

/// The first `n` calls did the same to both encoders.
pub open spec fn agree_before(
    reference: Seq<Option<EncodeStep>>,
    node: Seq<Option<EncodeStep>>,
    n: int,
) -> bool {
    &&& reference.len() == node.len()
    &&& n <= node.len()
    &&& forall|i: int| 0 <= i < n ==> steps_agree(#[trigger] reference[i], node[i])
}

/// The divergence two encoders show: in the number of calls before anything
/// else, then in the first call that went differently, and in the buffers if
/// none did.
pub open spec fn encoders_part(
    reference: Seq<Option<EncodeStep>>,
    node: Seq<Option<EncodeStep>>,
    reference_buffer: Seq<u8>,
    node_buffer: Seq<u8>,
    divergence: EncodeDivergence,
) -> bool {
    match divergence {
        EncodeDivergence::Length => reference.len() != node.len(),
        EncodeDivergence::Skipped(i) => {
            &&& i < node.len()
            &&& agree_before(reference, node, i as int)
            &&& (reference[i as int] is None) != (node[i as int] is None)
        },
        EncodeDivergence::Error(i) => {
            &&& i < node.len()
            &&& agree_before(reference, node, i as int)
            &&& reference[i as int] matches Some(c)
            &&& node[i as int] matches Some(n)
            &&& c.error != n.error
        },
        EncodeDivergence::Shortfall(i) => {
            &&& i < node.len()
            &&& agree_before(reference, node, i as int)
            &&& reference[i as int] matches Some(c)
            &&& node[i as int] matches Some(n)
            &&& c.error == n.error
            &&& c.extra_needed != n.extra_needed
        },
        EncodeDivergence::Cursor(i) => {
            &&& i < node.len()
            &&& agree_before(reference, node, i as int)
            &&& reference[i as int] matches Some(c)
            &&& node[i as int] matches Some(n)
            &&& c.error == n.error
            &&& c.extra_needed == n.extra_needed
            &&& n.extra_needed == 0
            &&& c.buffer_size != n.buffer_size
        },
        EncodeDivergence::Buffer(at) => {
            &&& agree_before(reference, node, node.len() as int)
            &&& differ_first_at(reference_buffer, node_buffer, at as int)
        },
    }
}

/// Whether two errors are the same.
fn same_error(a: Option<CborError>, b: Option<CborError>) -> (r: bool)
    ensures
        r == (a == b),
{
    match (a, b) {
        (Some(x), Some(y)) => x == y,
        (None, None) => true,
        _ => false,
    }
}

/// Compare what two encoders did with one script, after every call and at the
/// end.
pub fn check_encode(
    reference: &[Option<EncodeStep>],
    node: &[Option<EncodeStep>],
    reference_buffer: &[u8],
    node_buffer: &[u8],
) -> (r: Result<(), EncodeDivergence>)
    ensures
        r is Ok <==> {
            &&& reference@.len() == node@.len()
            &&& forall|i: int|
                0 <= i < node@.len() ==> steps_agree(#[trigger] reference@[i], node@[i])
            &&& reference_buffer@ == node_buffer@
        },
        r matches Err(divergence) ==> encoders_part(
            reference@,
            node@,
            reference_buffer@,
            node_buffer@,
            divergence,
        ),
{
    if reference.len() != node.len() {
        return Err(EncodeDivergence::Length);
    }
    let mut i: usize = 0;
    while i < node.len()
        invariant
            reference@.len() == node@.len(),
            i <= node@.len(),
            forall|j: int| 0 <= j < i ==> steps_agree(#[trigger] reference@[j], node@[j]),
        decreases node@.len() - i,
    {
        match (reference[i], node[i]) {
            (Some(c), Some(n)) => {
                if !same_error(c.error, n.error) {
                    return Err(EncodeDivergence::Error(i));
                }
                if c.extra_needed != n.extra_needed {
                    return Err(EncodeDivergence::Shortfall(i));
                }
                if n.extra_needed == 0 && c.buffer_size != n.buffer_size {
                    return Err(EncodeDivergence::Cursor(i));
                }
            },
            (None, None) => {},
            _ => return Err(EncodeDivergence::Skipped(i)),
        }
        i = i + 1;
    }
    match first_difference(reference_buffer, node_buffer) {
        Some(at) => Err(EncodeDivergence::Buffer(at)),
        None => Ok(()),
    }
}

/// Whether a payload starts with the one integer the reference cannot read:
/// one less than the most negative 64-bit integer. Reading it negates that
/// integer, which the reference leaves undefined. The head is recognised from
/// the bytes, so that what is compared does not decide its own domain.
#[must_use]
pub fn is_int64_negation_overflow(payload: &[u8]) -> (r: bool)
    ensures
        r <==> payload@.len() >= 9 && payload@.subrange(0, 9) == seq![
            0x3Bu8,
            0x80u8,
            0u8,
            0u8,
            0u8,
            0u8,
            0u8,
            0u8,
            0u8,
        ],
{
    if payload.len() < 9 {
        return false;
    }
    let ghost start = payload@.subrange(0, 9);
    let ghost overflow = seq![0x3Bu8, 0x80u8, 0u8, 0u8, 0u8, 0u8, 0u8, 0u8, 0u8];
    if payload[0] != 0x3B || payload[1] != 0x80 {
        assert(start[0] == payload@[0] && start[1] == payload@[1]);
        return false;
    }
    let mut i: usize = 2;
    while i < 9
        invariant
            payload@.len() >= 9,
            2 <= i <= 9,
            start == payload@.subrange(0, 9),
            overflow == seq![0x3Bu8, 0x80u8, 0u8, 0u8, 0u8, 0u8, 0u8, 0u8, 0u8],
            payload@[0] == 0x3B,
            payload@[1] == 0x80,
            forall|j: int| 2 <= j < i ==> payload@[j] == 0,
        decreases 9 - i,
    {
        if payload[i] != 0 {
            assert(start[i as int] == payload@[i as int]);
            assert(overflow[i as int] == 0);
            return false;
        }
        i = i + 1;
    }
    assert(start =~= overflow);
    true
}

/// What a parsed value says it is.
#[derive(Debug, Clone, Copy, PartialEq, Eq, Structural)]
pub struct Predicates {
    /// Whether it is valid.
    pub valid: bool,
    /// Its type's number.
    pub ty: u8,
    /// Whether it is an integer.
    pub integer: bool,
    /// Whether it is an unsigned integer.
    pub unsigned_integer: bool,
    /// Whether it is a negative integer.
    pub negative_integer: bool,
    /// Whether it is a byte string.
    pub byte_string: bool,
    /// Whether it is a text string.
    pub text_string: bool,
    /// Whether it is an array.
    pub array: bool,
    /// Whether it is a map.
    pub map: bool,
    /// Whether it is a float.
    pub float: bool,
    /// Whether its length is known.
    pub length_known: bool,
}

/// Which accessors a value unlocks.
#[derive(Debug, Clone, Copy, PartialEq, Eq, Structural)]
pub struct Accessors {
    /// Read it as an unsigned integer.
    pub uint64: bool,
    /// Read it as a signed integer.
    pub int64: bool,
    /// Read it as a float.
    pub float: bool,
    /// Read its length as a string, and copy it.
    pub string: bool,
    /// Read its length as an array.
    pub array: bool,
    /// Read its length as a map.
    pub map: bool,
}

/// Which accessors may be called on a value parsed from `payload`: those its
/// type unlocks, and a signed read only where the reference is defined.
#[must_use]
pub fn accessors(value: &Predicates, payload: &[u8]) -> (r: Accessors)
    ensures
        r.uint64 == value.unsigned_integer,
        r.float == value.float,
        r.string == (value.byte_string || value.text_string),
        r.array == value.array,
        r.map == value.map,
        r.int64 ==> value.integer,
        r.int64 == (value.integer && !(payload@.len() >= 9 && payload@.subrange(0, 9) == seq![
            0x3Bu8,
            0x80u8,
            0u8,
            0u8,
            0u8,
            0u8,
            0u8,
            0u8,
            0u8,
        ])),
{
    Accessors {
        uint64: value.unsigned_integer,
        int64: value.integer && !is_int64_negation_overflow(payload),
        float: value.float,
        string: value.byte_string || value.text_string,
        array: value.array,
        map: value.map,
    }
}

/// What reading a length came to: how many there are, or an error.
#[derive(Debug, Clone, Copy, PartialEq, Eq, Structural)]
pub enum LengthRead {
    /// This many.
    Known(usize),
    /// This error.
    Failed(CborError),
}

/// What copying a string came to.
#[derive(Debug, Clone, Copy, PartialEq, Eq, Structural)]
pub enum Copied {
    /// It fit: this many bytes.
    Fits(usize),
    /// It did not: this many bytes.
    TooSmall(usize),
    /// The string itself is broken.
    Failed(CborError),
}

impl Copied {
    /// The error this is reported as.
    pub open spec fn error(self) -> Option<CborError> {
        match self {
            Copied::Fits(_) => None,
            Copied::TooSmall(_) => Some(CborError::OutOfMemory),
            Copied::Failed(error) => Some(error),
        }
    }

    /// The length that is written back, given a buffer of `copy_len` bytes:
    /// the string's whether or not it fit, and the buffer's own if the string
    /// is broken.
    pub open spec fn written_back(self, copy_len: usize) -> usize {
        match self {
            Copied::Fits(len) => len,
            Copied::TooSmall(len) => len,
            Copied::Failed(_) => copy_len,
        }
    }
}

/// What the reference reported of a string copy.
#[derive(Debug)]
pub struct ReferenceCopy {
    /// What it failed with, if it failed.
    pub error: Option<CborError>,
    /// The length it wrote back.
    pub len: usize,
    /// The buffer it was given, afterwards.
    pub buffer: Vec<u8>,
}

/// How two parsers differ.
#[derive(Debug, Clone, Copy, PartialEq, Eq, Structural)]
pub enum DecodeDivergence {
    /// Parsing returned different errors.
    Error,
    /// The value is different things on the two sides.
    Predicates,
    /// The unsigned integers differ.
    Uint64,
    /// The signed integers differ.
    Int64,
    /// The floats differ.
    Float,
    /// The lengths differ.
    Length,
    /// A copy returned different errors.
    CopyError,
    /// A copy wrote back different lengths.
    CopyLength,
    /// The buffers copied into differ, first at this byte.
    CopyBuffer(usize),
}

/// Compare a length that was read on both sides. On an error the reference's
/// length means nothing.
pub fn check_length(
    reference_error: Option<CborError>,
    reference_len: usize,
    node: LengthRead,
) -> (r: Result<(), DecodeDivergence>)
    ensures
        r is Ok <==> match node {
            LengthRead::Known(len) => reference_error is None && reference_len == len,
            LengthRead::Failed(error) => reference_error == Some(error),
        },
        r is Err ==> r == Err::<(), DecodeDivergence>(DecodeDivergence::Length),
{
    let agrees = match node {
        LengthRead::Known(len) => reference_error.is_none() && reference_len == len,
        LengthRead::Failed(error) => same_error(reference_error, Some(error)),
    };
    if agrees {
        Ok(())
    } else {
        Err(DecodeDivergence::Length)
    }
}

/// Compare a string that was copied on both sides: the error, every byte of
/// the buffer including those neither side should have touched, and the length
/// written back.
pub fn check_copy(
    reference: &ReferenceCopy,
    node: Copied,
    node_buffer: &[u8],
    copy_len: usize,
) -> (r: Result<(), DecodeDivergence>)
    ensures
        r is Ok <==> {
            &&& reference.error == node.error()
            &&& reference.buffer@ == node_buffer@
            &&& reference.len == node.written_back(copy_len)
        },
        r matches Err(divergence) ==> match divergence {
            DecodeDivergence::CopyError => reference.error != node.error(),
            DecodeDivergence::CopyBuffer(at) => reference.error == node.error()
                && differ_first_at(reference.buffer@, node_buffer@, at as int),
            DecodeDivergence::CopyLength => reference.error == node.error()
                && reference.buffer@ == node_buffer@ && reference.len != node.written_back(
                copy_len,
            ),
            _ => false,
        },
{
    let error = match node {
        Copied::Fits(_) => None,
        Copied::TooSmall(_) => Some(CborError::OutOfMemory),
        Copied::Failed(error) => Some(error),
    };
    if !same_error(reference.error, error) {
        return Err(DecodeDivergence::CopyError);
    }
    match first_difference(reference.buffer.as_slice(), node_buffer) {
        Some(at) => return Err(DecodeDivergence::CopyBuffer(at)),
        None => {},
    }
    let len = match node {
        Copied::Fits(len) => len,
        Copied::TooSmall(len) => len,
        Copied::Failed(_) => copy_len,
    };
    if reference.len != len {
        return Err(DecodeDivergence::CopyLength);
    }
    Ok(())
}

/// What a parse came to on one side: its error, what the value says it is, and
/// what the accessors it unlocks returned.
#[derive(Debug, Clone, Copy, PartialEq, Eq, Structural)]
pub struct Parsed {
    /// What parsing failed with, if it failed. There is a value all the same.
    pub error: Option<CborError>,
    /// What the value says it is.
    pub value: Predicates,
    /// The unsigned integer, if it was read.
    pub uint64: Option<u64>,
    /// The signed integer, if it was read.
    pub int64: Option<i64>,
    /// The float's bits, if it was read.
    pub float: Option<u32>,
}

/// Compare what two parsers made of a payload: the error, everything the value
/// says it is, and every number read out of it.
pub fn check_decode(reference: &Parsed, node: &Parsed) -> (r: Result<(), DecodeDivergence>)
    ensures
        r is Ok <==> *reference == *node,
        r == if reference.error != node.error {
            Err(DecodeDivergence::Error)
        } else if reference.value != node.value {
            Err(DecodeDivergence::Predicates)
        } else if reference.uint64 != node.uint64 {
            Err(DecodeDivergence::Uint64)
        } else if reference.int64 != node.int64 {
            Err(DecodeDivergence::Int64)
        } else if reference.float != node.float {
            Err(DecodeDivergence::Float)
        } else {
            Ok::<(), DecodeDivergence>(())
        },
{
    if !same_error(reference.error, node.error) {
        return Err(DecodeDivergence::Error);
    }
    if reference.value != node.value {
        return Err(DecodeDivergence::Predicates);
    }
    let same_uint = match (reference.uint64, node.uint64) {
        (Some(a), Some(b)) => a == b,
        (None, None) => true,
        _ => false,
    };
    if !same_uint {
        return Err(DecodeDivergence::Uint64);
    }
    let same_int = match (reference.int64, node.int64) {
        (Some(a), Some(b)) => a == b,
        (None, None) => true,
        _ => false,
    };
    if !same_int {
        return Err(DecodeDivergence::Int64);
    }
    let same_float = match (reference.float, node.float) {
        (Some(a), Some(b)) => a == b,
        (None, None) => true,
        _ => false,
    };
    if !same_float {
        return Err(DecodeDivergence::Float);
    }
    Ok(())
}

/// Opening goes one deeper and closing one back up, as far as there is room and
/// anything open; what would go past either end is left out and changes
/// nothing. No other call is left out, and none changes the depth.
pub proof fn law_only_calls_past_either_end_are_left_out(ops: Seq<OpView>, n: nat)
    requires
        n < ops.len(),
    ensures
        ({
            let depth = depth_after(ops, n);
            let next = depth_after(ops, n + 1);
            match ops[n as int] {
                OpView::OpenMap(_) | OpView::OpenArray(_) => if depth < 4 {
                    !skips(ops[n as int], depth) && next == depth + 1
                } else {
                    skips(ops[n as int], depth) && next == depth
                },
                OpView::Close => if depth > 0 {
                    !skips(ops[n as int], depth) && next == depth - 1
                } else {
                    skips(ops[n as int], depth) && next == depth
                },
                _ => !skips(ops[n as int], depth) && next == depth,
            }
        }),
        depth_after(ops, 0) == 0,
{
    law_a_script_stays_within_its_encoders(ops, n);
}

/// Two calls did the same to both encoders exactly if both were left out, or
/// both were made with the same error and shortfall, and the same cursor while
/// there is no shortfall.
pub proof fn law_a_call_agrees_if_it_did_the_same(a: EncodeStep, b: EncodeStep)
    ensures
        steps_agree(None, None),
        !steps_agree(Some(a), None) && !steps_agree(None, Some(b)),
        steps_agree(Some(a), Some(b)) ==> a.error == b.error && a.extra_needed == b.extra_needed,
        steps_agree(Some(a), Some(b)) && b.extra_needed == 0 ==> a.buffer_size == b.buffer_size,
        steps_agree(Some(a), Some(a)),
        a.error == b.error && a.extra_needed == b.extra_needed && b.extra_needed > 0
            ==> steps_agree(Some(a), Some(b)),
{
}

/// What is faulted is really wrong, and the first thing that is: every call
/// before it agrees.
pub proof fn law_an_encoding_is_faulted_for_what_is_wrong(
    reference: Seq<Option<EncodeStep>>,
    node: Seq<Option<EncodeStep>>,
    reference_buffer: Seq<u8>,
    node_buffer: Seq<u8>,
    divergence: EncodeDivergence,
)
    requires
        encoders_part(reference, node, reference_buffer, node_buffer, divergence),
    ensures
        match divergence {
            EncodeDivergence::Length => reference.len() != node.len(),
            EncodeDivergence::Skipped(i)
            | EncodeDivergence::Error(i)
            | EncodeDivergence::Shortfall(i)
            | EncodeDivergence::Cursor(i) => {
                &&& reference.len() == node.len() && i < node.len()
                &&& !steps_agree(reference[i as int], node[i as int])
                &&& forall|j: int| 0 <= j < i ==> steps_agree(#[trigger] reference[j], node[j])
            },
            EncodeDivergence::Buffer(_) => reference_buffer != node_buffer && reference.len()
                == node.len() && forall|j: int|
                0 <= j < node.len() ==> steps_agree(#[trigger] reference[j], node[j]),
        },
{
    if divergence is Buffer {
        let at = divergence->Buffer_0 as int;
        crate::bytes::law_there_is_one_first_difference(reference_buffer, node_buffer, at, at);
    }
}

/// A copy that fits reports no error and one that does not reports that there
/// is no room, both with the string's length; a broken string reports its own
/// error and leaves the length alone.
pub proof fn law_a_copy_reports_the_length_of_the_string(
    len: usize,
    error: CborError,
    copy_len: usize,
)
    ensures
        Copied::Fits(len).error() is None,
        Copied::Fits(len).written_back(copy_len) == len,
        Copied::TooSmall(len).error() == Some(CborError::OutOfMemory),
        Copied::TooSmall(len).written_back(copy_len) == len,
        Copied::Failed(error).error() == Some(error),
        Copied::Failed(error).written_back(copy_len) == copy_len,
{
}

/// A call that is written down is drawn back as it was, and nothing behind it
/// is touched.
pub proof fn law_a_written_call_is_drawn_back(
    number: u64,
    bits: u32,
    body: Seq<u8>,
    count: u8,
    more: Seq<u8>,
)
    requires
        body.len() <= 48,
        count <= 4,
    ensures
        drawn_op(seq![0u8] + (le_bytes(number as nat, 8) + more)) == (OpView::Uint(number), more),
        drawn_op(seq![1u8] + (le_bytes(number as nat, 8) + more)) == (
            OpView::Int(number as i64),
            more,
        ),
        drawn_op(seq![2u8] + (le_bytes(bits as nat, 4) + more)) == (OpView::Float(bits), more),
        drawn_op(seq![3u8] + (seq![body.len() as u8] + (body + more))) == (
            OpView::Text(body),
            more,
        ),
        drawn_op(seq![4u8] + (seq![body.len() as u8] + (body + more))) == (
            OpView::Bytes(body),
            more,
        ),
        drawn_op(seq![5u8] + (seq![count] + more)) == (OpView::OpenMap(count), more),
        drawn_op(seq![6u8] + (seq![count] + more)) == (OpView::OpenArray(count), more),
        drawn_op(seq![7u8] + more) == (OpView::Close, more),
{
    broadcast use crate::bytes::lemma_le_bytes_len;

    let n = le_bytes(number as nat, 8);
    let f = le_bytes(bits as nat, 4);
    let b = seq![body.len() as u8] + (body + more);
    crate::bytes::law_le_bytes_fit(number as nat);
    crate::bytes::law_le_bytes_fit(bits as nat);
    crate::fuzz::law_a_tag_is_one_byte(0, 8, n + more);
    crate::fuzz::law_a_tag_is_one_byte(1, 8, n + more);
    crate::fuzz::law_a_tag_is_one_byte(2, 8, f + more);
    crate::fuzz::law_a_tag_is_one_byte(3, 8, b);
    crate::fuzz::law_a_tag_is_one_byte(4, 8, b);
    crate::fuzz::law_a_tag_is_one_byte(5, 8, seq![count] + more);
    crate::fuzz::law_a_tag_is_one_byte(6, 8, seq![count] + more);
    crate::fuzz::law_a_tag_is_one_byte(7, 8, more);
    crate::fuzz::law_what_is_written_first_is_drawn_first(n, more, 0);
    crate::fuzz::law_what_is_written_first_is_drawn_first(f, more, 0);
    crate::diff::configuration::law_bounded_bytes_are_drawn_back(48, body, more);
    crate::fuzz::law_a_tag_is_one_byte(count, 5, more);
}

/// A script is its calls one after the other.
pub proof fn law_a_script_is_drawn_call_by_call(s: Seq<u8>, n: nat)
    ensures
        drawn_ops(s, 0).0.len() == 0,
        drawn_ops(s, 0).1 == s,
        drawn_ops(s, n + 1).0 =~= seq![drawn_op(s).0] + drawn_ops(drawn_op(s).1, n).0,
        drawn_ops(s, n + 1).1 == drawn_ops(drawn_op(s).1, n).1,
{
}

/// An input is drawn from the bytes that were written for it: how large its two
/// buffers are, its script, and its payload.
pub proof fn law_a_written_input_is_drawn_back(
    input: CborInput,
    buffer_len: u8,
    copy_len: u8,
    body: Seq<u8>,
    more: Seq<u8>,
)
    requires
        buffer_len <= 160,
        copy_len <= 80,
        body.len() <= 48,
        input.drawn_from(
            seq![buffer_len] + (seq![copy_len] + (seq![0u8] + (seq![body.len() as u8] + (body
                + more)))),
        ),
    ensures
        input.buffer_len == buffer_len,
        input.copy_len == copy_len,
        input.ops@.len() == 0,
        input.payload@ =~= body,
        CborInput::past(
            seq![buffer_len] + (seq![copy_len] + (seq![0u8] + (seq![body.len() as u8] + (body
                + more)))),
        ) =~= more,
{
    let s3 = seq![body.len() as u8] + (body + more);
    let s2 = seq![0u8] + s3;
    let s1 = seq![copy_len] + s2;
    crate::fuzz::law_a_tag_is_one_byte(buffer_len, 161, s1);
    crate::fuzz::law_a_tag_is_one_byte(copy_len, 81, s2);
    crate::fuzz::law_a_tag_is_one_byte(0, 13, s3);
    crate::diff::configuration::law_bounded_bytes_are_drawn_back(48, body, more);
    assert(ops_view(input.ops@).len() == input.ops@.len());
}

/// Two calls look the same only if they are of one kind and say the same.
pub proof fn law_calls_are_told_apart(a: Op, b: Op)
    ensures
        a@ == b@ ==> match (a, b) {
            (Op::Uint(v), Op::Uint(w)) => v == w,
            (Op::Int(v), Op::Int(w)) => v == w,
            (Op::Float(v), Op::Float(w)) => v == w,
            (Op::Text(v), Op::Text(w)) => v@ == w@,
            (Op::Bytes(v), Op::Bytes(w)) => v@ == w@,
            (Op::OpenMap(v), Op::OpenMap(w)) => v == w,
            (Op::OpenArray(v), Op::OpenArray(w)) => v == w,
            (Op::Close, Op::Close) => true,
            _ => false,
        },
{
}

} // verus!
