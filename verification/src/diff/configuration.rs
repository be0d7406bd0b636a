//! Comparing configuration stores: every operation's result, and after it the
//! images in memory and in storage.
use vstd::prelude::*;

use crate::bytes::{
    be, be_bytes, copied, differ_first_at, first_difference, le, le_bytes, lemma_be_bytes_len,
    lemma_le_bytes_len, overlay, push_be, push_le, put,
};
use crate::fuzz::{
    draw_array, draw_bool, draw_filled, draw_i32, draw_in_range, draw_index, draw_ratio, draw_u16,
    draw_u32, draw_u64, draw_u8, in_range, law_a_draw_stays_in_its_range, law_a_tag_is_one_byte,
    law_what_is_written_first_is_drawn_first, odd, padded, past_range, rest, source, unread,
};
use crate::port::Partition;
use arbitrary::Unstructured;
use vstd::slice::slice_subrange;

verus! {

/// Most keys an image may declare.
pub const MAX_NUM_KV: u8 = 50;

/// Where an image keeps how many keys it holds.
pub const NUM_KEYS_OFFSET: usize = 8;

/// How many keys the pool holds.
pub const POOLED_KEYS: usize = 13;

/// Most operations a script may carry.
pub const MAX_OPS: usize = 64;

/// A prefix of this is three of the pool's keys: 31, 32 and 33 bytes long,
/// around the longest key that fits its slot.
pub const LONG_KEY: [u8; 33] = [
    0x61, 0x62, 0x63, 0x64, 0x65, 0x66, 0x67, 0x68, 0x69, 0x6a, 0x6b, 0x6c, 0x6d,
    0x6e, 0x6f, 0x70, 0x71, 0x72, 0x73, 0x74, 0x75, 0x76, 0x77, 0x78, 0x79, 0x7a,
    0x30, 0x31, 0x32, 0x33, 0x34, 0x35, 0x36,
];

/// The keys a script names most: ordinary ones, the 31/32/33-byte boundary, an
/// invalid character, and two that differ only after a NUL.
pub open spec fn pooled(i: int) -> Seq<u8> {
    if i == 0 {
        seq![0x66u8, 0x6fu8, 0x6fu8]
    } else if i == 1 {
        seq![0x62u8, 0x61u8, 0x72u8]
    } else if i == 2 {
        seq![0x62u8, 0x61u8, 0x7au8]
    } else if i == 3 {
        seq![0x61u8]
    } else if i == 4 {
        seq![0x5fu8]
    } else if i == 5 {
        seq![0x5au8, 0x39u8]
    } else if i == 6 {
        LONG_KEY@.subrange(0, 31)
    } else if i == 7 {
        LONG_KEY@.subrange(0, 32)
    } else if i == 8 {
        LONG_KEY@.subrange(0, 33)
    } else if i == 9 {
        seq![0x62u8, 0x61u8, 0x64u8, 0x2du8, 0x6bu8, 0x65u8, 0x79u8]
    } else if i == 10 {
        seq![0x61u8, 0x62u8, 0x00u8, 0x63u8]
    } else if i == 11 {
        seq![0x61u8, 0x62u8, 0x00u8, 0x64u8]
    } else {
        Seq::empty()
    }
}

/// One of the pool's keys.
fn pool_key(i: usize) -> (r: Vec<u8>)
    requires
        i < POOLED_KEYS,
    ensures
        r@ == pooled(i as int),
{
    let key = match i {
        0 => copied(&[0x66u8, 0x6fu8, 0x6fu8]),
        1 => copied(&[0x62u8, 0x61u8, 0x72u8]),
        2 => copied(&[0x62u8, 0x61u8, 0x7au8]),
        3 => copied(&[0x61u8]),
        4 => copied(&[0x5fu8]),
        5 => copied(&[0x5au8, 0x39u8]),
        6 => copied(slice_subrange(&LONG_KEY, 0, 31)),
        7 => copied(slice_subrange(&LONG_KEY, 0, 32)),
        8 => copied(slice_subrange(&LONG_KEY, 0, 33)),
        9 => copied(&[0x62u8, 0x61u8, 0x64u8, 0x2du8, 0x6bu8, 0x65u8, 0x79u8]),
        10 => copied(&[0x61u8, 0x62u8, 0x00u8, 0x63u8]),
        11 => copied(&[0x61u8, 0x62u8, 0x00u8, 0x64u8]),
        _ => Vec::new(),
    };
    assert(key@ =~= pooled(i as int));
    key
}

/// Up to `max` bytes, drawn as a length and then that many bytes, zeros past
/// the end.
pub open spec fn drawn_bounded(s: Seq<u8>, max: int) -> Seq<u8> {
    padded(past_range(s, max), in_range(s, 0, max) as nat)
}

/// What drawing up to `max` bytes leaves of `s`.
pub open spec fn past_bounded(s: Seq<u8>, max: int) -> Seq<u8> {
    rest(past_range(s, max), in_range(s, 0, max) as nat)
}

/// Up to `max` bytes.
pub(crate) fn bounded_bytes(u: &mut Unstructured<'_>, max: usize) -> (r: Vec<u8>)
    requires
        max <= 0xFF,
    ensures
        r@ == drawn_bounded(unread(old(u)), max as int),
        unread(final(u)) == past_bounded(unread(old(u)), max as int),
        r@.len() <= max,
{
    let len = draw_in_range(u, 0, max as u64);
    draw_filled(u, len as usize)
}

/// A minimal-length CBOR head: the major type and an argument in as few bytes
/// as hold it.
pub open spec fn head(major: u8, arg: u64) -> Seq<u8> {
    if arg <= 23 {
        seq![major | (arg as u8)]
    } else if arg <= 0xFF {
        seq![major | 24u8] + be_bytes(arg as nat, 1)
    } else if arg <= 0xFFFF {
        seq![major | 25u8] + be_bytes(arg as nat, 2)
    } else if arg <= 0xFFFF_FFFF {
        seq![major | 26u8] + be_bytes(arg as nat, 4)
    } else {
        seq![major | 27u8] + be_bytes(arg as nat, 8)
    }
}

/// Append a minimal-length head.
pub fn push_head(out: &mut Vec<u8>, major: u8, arg: u64)
    ensures
        final(out)@ == old(out)@ + head(major, arg),
{
    let ghost before = out@;
    if arg <= 23 {
        out.push(major | (arg as u8));
    } else if arg <= 0xFF {
        out.push(major | 24);
        push_be(out, arg, 1);
    } else if arg <= 0xFFFF {
        out.push(major | 25);
        push_be(out, arg, 2);
    } else if arg <= 0xFFFF_FFFF {
        out.push(major | 26);
        push_be(out, arg, 4);
    } else {
        out.push(major | 27);
        push_be(out, arg, 8);
    }
    assert(out@ =~= before + head(major, arg));
}

/// A head can be read back: its first byte keeps the major type apart from how
/// the argument is held, and the bytes after it, if any, are the argument.
pub proof fn law_a_head_reads_back(major: u8, arg: u64)
    requires
        major & 0x1F == 0,
    ensures
        head(major, arg)[0] & 0xE0 == major,
        arg <= 23 ==> head(major, arg).len() == 1 && head(major, arg)[0] & 0x1F == arg,
        arg > 23 ==> be(head(major, arg).drop_first()) == arg,
{
    broadcast use lemma_be_bytes_len;

    let low: u8 = if arg <= 23 {
        arg as u8
    } else if arg <= 0xFF {
        24
    } else if arg <= 0xFFFF {
        25
    } else if arg <= 0xFFFF_FFFF {
        26
    } else {
        27
    };
    assert((major | low) & 0xE0 == major && (major | low) & 0x1F == low) by (bit_vector)
        requires
            major & 0x1F == 0,
            low <= 27,
    ;
    assert(head(major, arg)[0] == major | low);
    if arg > 23 {
        let width: nat = if arg <= 0xFF {
            1
        } else if arg <= 0xFFFF {
            2
        } else if arg <= 0xFFFF_FFFF {
            4
        } else {
            8
        };
        reveal_with_fuel(crate::bytes::pow256, 9);
        assert(head(major, arg).drop_first() =~= be_bytes(arg as nat, width));
        crate::bytes::law_be_bytes_round_trip(arg as nat, width);
    }
}

/// The chunks of a chunked string, drawn one after the other: mostly of the
/// string's own major type, sometimes of the other one or behind a nested
/// chunked head, both of which a parser refuses.
pub open spec fn drawn_chunks(s: Seq<u8>, major: u8, n: nat) -> (Seq<u8>, Seq<u8>)
    decreases n,
{
    if n == 0 {
        (Seq::empty(), s)
    } else {
        let s1 = past_range(s, 7);
        let chunk_major = if in_range(s, 0, 7) == 0 {
            major ^ 0x20
        } else {
            major
        };
        let s2 = past_range(s1, 15);
        let nested = if in_range(s1, 1, 16) <= 1 {
            seq![chunk_major | 31u8]
        } else {
            Seq::empty()
        };
        let body = drawn_bounded(s2, 10);
        let (more, left) = drawn_chunks(past_bounded(s2, 10), major, (n - 1) as nat);
        (nested + head(chunk_major, body.len() as u64) + body + more, left)
    }
}

/// A string's major type, text or bytes.
pub open spec fn string_major(s: Seq<u8>) -> u8 {
    if odd(s) {
        0x40
    } else {
        0x60
    }
}

/// A value to store, as it is drawn: raw bytes, or something shaped like a
/// string, a chunked string, a scalar or a container head, with trailing bytes.
pub open spec fn drawn_value(s: Seq<u8>) -> (Seq<u8>, Seq<u8>) {
    let shape = in_range(s, 0, 4);
    let s1 = past_range(s, 4);
    if shape == 0 {
        (drawn_bounded(s1, 52), past_bounded(s1, 52))
    } else {
        let (value, left) = if shape == 1 {
            drawn_string(s1)
        } else if shape == 2 {
            drawn_chunked(s1)
        } else if shape == 3 {
            drawn_scalar(s1)
        } else {
            drawn_container(s1)
        };
        (value + drawn_bounded(left, 4), past_bounded(left, 4))
    }
}

/// A string of known length.
pub open spec fn drawn_string(s: Seq<u8>) -> (Seq<u8>, Seq<u8>) {
    let s1 = rest(s, 1);
    let body = drawn_bounded(s1, 52);
    (head(string_major(s), body.len() as u64) + body, past_bounded(s1, 52))
}

/// A chunked string, mostly with the byte that ends it.
pub open spec fn drawn_chunked(s: Seq<u8>) -> (Seq<u8>, Seq<u8>) {
    let major = string_major(s);
    let s1 = rest(s, 1);
    let (chunks, s2) = drawn_chunks(past_range(s1, 4), major, in_range(s1, 0, 4) as nat);
    let end = if in_range(s2, 1, 8) <= 7 {
        seq![0xFFu8]
    } else {
        Seq::empty()
    };
    (seq![major | 31u8] + chunks + end, past_range(s2, 7))
}

/// An integer or a float.
pub open spec fn drawn_scalar(s: Seq<u8>) -> (Seq<u8>, Seq<u8>) {
    let shape = in_range(s, 0, 4);
    let s1 = past_range(s, 4);
    if shape == 0 {
        (head(0x00, le(padded(s1, 8)) as u64), rest(s1, 8))
    } else if shape == 1 {
        (head(0x20, le(padded(s1, 8)) as u64), rest(s1, 8))
    } else if shape == 2 {
        (seq![0xFAu8] + padded(s1, 4), rest(s1, 4))
    } else if shape == 3 {
        (seq![0xF9u8] + padded(s1, 2), rest(s1, 2))
    } else {
        (seq![0xFBu8] + padded(s1, 8), rest(s1, 8))
    }
}

/// The major type of a container, a tag or a simple value.
pub open spec fn container_major(i: int) -> u8 {
    if i == 0 {
        0x80
    } else if i == 1 {
        0xA0
    } else if i == 2 {
        0xC0
    } else {
        0xE0
    }
}

/// The head of a container, a tag or a simple value.
pub open spec fn drawn_container(s: Seq<u8>) -> (Seq<u8>, Seq<u8>) {
    let major = container_major(in_range(s, 0, 3));
    let s1 = past_range(s, 3);
    let s2 = rest(s1, 1);
    if odd(s1) {
        (seq![major | 31u8], s2)
    } else {
        (head(major, in_range(s2, 0, 300) as u64), past_range(s2, 300))
    }
}

/// A string's major type.
fn draw_major(u: &mut Unstructured<'_>) -> (r: u8)
    ensures
        r == string_major(unread(old(u))),
        unread(final(u)) == rest(unread(old(u)), 1),
{
    if draw_bool(u) {
        0x40
    } else {
        0x60
    }
}

/// A string of known length.
fn draw_string(u: &mut Unstructured<'_>) -> (r: Vec<u8>)
    ensures
        (r@, unread(final(u))) == drawn_string(unread(old(u))),
{
    let mut out: Vec<u8> = Vec::new();
    let major = draw_major(u);
    let body = bounded_bytes(u, 52);
    push_head(&mut out, major, body.len() as u64);
    out.extend_from_slice(body.as_slice());
    assert(out@ =~= drawn_string(unread(old(u))).0);
    out
}

/// A chunked string.
fn draw_chunked(u: &mut Unstructured<'_>) -> (r: Vec<u8>)
    ensures
        (r@, unread(final(u))) == drawn_chunked(unread(old(u))),
{
    let mut out: Vec<u8> = Vec::new();
    let major = draw_major(u);
    out.push(major | 31);
    let count = draw_in_range(u, 0, 4);
    let ghost first = unread(u);
    let mut done: u64 = 0;
    assert(out@ =~= seq![major | 31u8]);
    while done < count
        invariant
            done <= count,
            ({
                let (more, left) = drawn_chunks(unread(u), major, (count - done) as nat);
                let (all, end) = drawn_chunks(first, major, count as nat);
                out@ + more =~= seq![major | 31u8] + all && left == end
            }),
        decreases count - done,
    {
        let ghost s = unread(u);
        let ghost before = out@;
        let chunk_major = if draw_in_range(u, 0, 7) == 0 {
            major ^ 0x20
        } else {
            major
        };
        if draw_ratio(u, 1, 16) {
            out.push(chunk_major | 31);
        }
        let ghost opened = out@;
        let body = bounded_bytes(u, 10);
        push_head(&mut out, chunk_major, body.len() as u64);
        out.extend_from_slice(body.as_slice());
        proof {
            let (more, left) = drawn_chunks(unread(u), major, (count - done - 1) as nat);
            let (now, end) = drawn_chunks(s, major, (count - done) as nat);
            assert(out@ =~= opened + head(chunk_major, body@.len() as u64) + body@);
            assert(before + now =~= out@ + more);
        }
        done = done + 1;
    }
    if draw_ratio(u, 7, 8) {
        out.push(0xFF);
    }
    assert(out@ =~= drawn_chunked(unread(old(u))).0);
    out
}

/// An integer or a float.
fn draw_scalar(u: &mut Unstructured<'_>) -> (r: Vec<u8>)
    ensures
        (r@, unread(final(u))) == drawn_scalar(unread(old(u))),
{
    let mut out: Vec<u8> = Vec::new();
    match draw_in_range(u, 0, 4) {
        0 => {
            let arg = draw_u64(u);
            push_head(&mut out, 0x00, arg);
        },
        1 => {
            let arg = draw_u64(u);
            push_head(&mut out, 0x20, arg);
        },
        2 => {
            out.push(0xFA);
            let bits = draw_array::<4>(u);
            out.extend_from_slice(&bits);
        },
        3 => {
            out.push(0xF9);
            let bits = draw_array::<2>(u);
            out.extend_from_slice(&bits);
        },
        _ => {
            out.push(0xFB);
            let bits = draw_array::<8>(u);
            out.extend_from_slice(&bits);
        },
    }
    assert(out@ =~= drawn_scalar(unread(old(u))).0);
    out
}

/// The head of a container, a tag or a simple value.
fn draw_container(u: &mut Unstructured<'_>) -> (r: Vec<u8>)
    ensures
        (r@, unread(final(u))) == drawn_container(unread(old(u))),
{
    let mut out: Vec<u8> = Vec::new();
    let major: u8 = match draw_index(u, 4) {
        0 => 0x80,
        1 => 0xA0,
        2 => 0xC0,
        _ => 0xE0,
    };
    if draw_bool(u) {
        out.push(major | 31);
    } else {
        let arg = draw_in_range(u, 0, 300);
        push_head(&mut out, major, arg);
    }
    assert(out@ =~= drawn_container(unread(old(u))).0);
    out
}

/// A value to store.
pub fn cbor_value(u: &mut Unstructured<'_>) -> (r: Vec<u8>)
    ensures
        (r@, unread(final(u))) == drawn_value(unread(old(u))),
{
    let shape = draw_in_range(u, 0, 4);
    let mut out = match shape {
        0 => return bounded_bytes(u, 52),
        1 => draw_string(u),
        2 => draw_chunked(u),
        3 => draw_scalar(u),
        _ => draw_container(u),
    };
    let ghost value = out@;
    let trailing = bounded_bytes(u, 4);
    out.extend_from_slice(trailing.as_slice());
    assert(out@ =~= value + trailing@);
    out
}


/// A key as the reference receives it.
#[derive(Debug)]
pub struct KeyInput {
    /// The bytes at the key pointer.
    pub text: Vec<u8>,
    /// How long the key is said to be.
    pub len: usize,
}

/// The longer of two lengths.
pub open spec fn longer(a: nat, b: nat) -> nat {
    if a >= b {
        a
    } else {
        b
    }
}

/// A length moved by `by`, no lower than zero.
pub open spec fn moved(len: int, by: int) -> int {
    if len + by < 0 {
        0
    } else {
        len + by
    }
}

impl KeyInput {
    /// The text, then NULs to cover the length and a terminator, so that the
    /// reference reads nothing that is not there.
    pub fn c_bytes(&self) -> (r: Vec<u8>)
        requires
            self.len < usize::MAX,
            self.text@.len() < usize::MAX,
        ensures
            r@ == self.text@ + Seq::new(
                (longer(self.text@.len(), self.len as nat) + 1 - self.text@.len()) as nat,
                |i: int| 0u8,
            ),
    {
        let mut bytes = copied(self.text.as_slice());
        let end: usize = if self.text.len() >= self.len {
            self.text.len() + 1
        } else {
            self.len + 1
        };
        while bytes.len() < end
            invariant
                self.text@.len() <= bytes@.len() <= end,
                bytes@ =~= self.text@ + Seq::new(
                    (bytes@.len() - self.text@.len()) as nat,
                    |i: int| 0u8,
                ),
            decreases end - bytes@.len(),
        {
            bytes.push(0);
        }
        bytes
    }

    /// Draw a key: mostly one of the pool, of mostly the length it has, and
    /// sometimes with a value straight after it and no NUL between.
    pub fn arbitrary(u: &mut Unstructured<'_>) -> (r: Self)
        ensures
            ((r.text@, r.len as int), unread(final(u))) == drawn_key(unread(old(u))),
            r.len <= 42,
            r.text@.len() <= 42,
    {
        let base = if draw_ratio(u, 3, 4) {
            pool_key(draw_index(u, POOLED_KEYS))
        } else {
            bounded_bytes(u, 34)
        };
        let len: usize = match draw_in_range(u, 0, 5) {
            0 | 1 | 2 | 3 => base.len(),
            4 => {
                let shifted: usize = base.len() + (draw_in_range(u, 0, 4) as usize);
                if shifted < 2 {
                    0
                } else {
                    shifted - 2
                }
            },
            _ => draw_in_range(u, 0, 40) as usize,
        };
        let mut text = base;
        let ghost key = text@;
        if draw_ratio(u, 1, 5) {
            let value = bounded_bytes(u, 8);
            text.extend_from_slice(value.as_slice());
            assert(text@ =~= key + value@);
        } else {
            assert(text@ =~= key + Seq::<u8>::empty());
        }
        KeyInput { text, len }
    }
}

/// A key's text before a value may follow it, and what drawing it leaves.
pub open spec fn drawn_base(s: Seq<u8>) -> (Seq<u8>, Seq<u8>) {
    let s1 = past_range(s, 3);
    if in_range(s, 1, 4) <= 3 {
        (pooled(in_range(s1, 0, 12)), past_range(s1, 12))
    } else {
        (drawn_bounded(s1, 34), past_bounded(s1, 34))
    }
}

/// How long a key with this text is said to be: mostly what it is, sometimes
/// up to two bytes off, sometimes anything.
pub open spec fn drawn_key_len(s: Seq<u8>, len: int) -> (int, Seq<u8>) {
    let choice = in_range(s, 0, 5);
    let s1 = past_range(s, 5);
    if choice <= 3 {
        (len, s1)
    } else if choice == 4 {
        (moved(len, in_range(s1, 0, 4) - 2), past_range(s1, 4))
    } else {
        (in_range(s1, 0, 40), past_range(s1, 40))
    }
}

/// A key's text and length.
pub open spec fn drawn_key(s: Seq<u8>) -> ((Seq<u8>, int), Seq<u8>) {
    let (base, s1) = drawn_base(s);
    let (len, s2) = drawn_key_len(s1, base.len() as int);
    let s3 = past_range(s2, 4);
    if in_range(s2, 1, 5) <= 1 {
        ((base + drawn_bounded(s3, 8), len), past_bounded(s3, 8))
    } else {
        ((base + Seq::<u8>::empty(), len), s3)
    }
}

/// A partition, the system's twice as often as the others, so that keys
/// collide.
pub open spec fn partition_of(choice: int) -> Partition {
    if choice == 0 {
        Partition::User
    } else if choice == 3 {
        Partition::Hardware
    } else {
        Partition::System
    }
}

/// Draw a partition.
pub fn partition(u: &mut Unstructured<'_>) -> (r: Partition)
    ensures
        r == partition_of(in_range(unread(old(u)), 0, 3)),
        unread(final(u)) == past_range(unread(old(u)), 3),
{
    match draw_in_range(u, 0, 3) {
        0 => Partition::User,
        3 => Partition::Hardware,
        _ => Partition::System,
    }
}

/// A partition and a key.
#[derive(Debug)]
pub struct Target {
    /// Which partition.
    pub partition: Partition,
    /// Which key.
    pub key: KeyInput,
}

/// A [`Target`], as a value.
pub struct TargetView {
    /// Which partition.
    pub partition: Partition,
    /// The key's text.
    pub text: Seq<u8>,
    /// The key's length.
    pub len: int,
}

impl View for Target {
    type V = TargetView;

    open spec fn view(&self) -> TargetView {
        TargetView { partition: self.partition, text: self.key.text@, len: self.key.len as int }
    }
}

/// A partition and a key, as they are drawn.
pub open spec fn drawn_target(s: Seq<u8>) -> (TargetView, Seq<u8>) {
    let ((text, len), left) = drawn_key(past_range(s, 3));
    (TargetView { partition: partition_of(in_range(s, 0, 3)), text, len }, left)
}

impl Target {
    /// Draw a partition and a key.
    pub fn arbitrary(u: &mut Unstructured<'_>) -> (r: Self)
        ensures
            (r@, unread(final(u))) == drawn_target(unread(old(u))),
    {
        let partition = partition(u);
        let key = KeyInput::arbitrary(u);
        Target { partition, key }
    }
}

/// One store operation.
#[derive(Debug)]
pub enum Op {
    /// Store an unsigned integer.
    SetUint(Target, u32),
    /// Store a signed integer.
    SetInt(Target, i32),
    /// Store a float, given by its bits.
    SetFloat(Target, u32),
    /// Store a text string.
    SetString(Target, Vec<u8>),
    /// Store a byte string.
    SetBuffer(Target, Vec<u8>),
    /// Store an encoded value.
    SetCbor(Target, Vec<u8>),
    /// Read an unsigned integer.
    GetUint(Target),
    /// Read a signed integer.
    GetInt(Target),
    /// Read a float.
    GetFloat(Target),
    /// Read a text string into a buffer of this size.
    GetString(Target, u8),
    /// Read a byte string into a buffer of this size.
    GetBuffer(Target, u8),
    /// Read an encoded value into a buffer of this size.
    GetCbor(Target, u8),
    /// Read how long a value is.
    ValueSize(Target),
    /// Remove a key.
    Remove(Target),
    /// Remove every key of a partition.
    Clear(Partition),
    /// Save a partition, without a restart.
    Save(Partition),
    /// Load every partition.
    Reload,
    /// Overwrite one byte of a stored image, its offset counted modulo the image's length.
    Corrupt(Partition, u16, u8),
    /// Make a stored image load: cap its number of keys and give it a valid checksum.
    FixCrc(Partition),
}

/// An [`Op`], as a value.
pub enum OpView {
    /// Store an unsigned integer.
    SetUint(TargetView, u32),
    /// Store a signed integer.
    SetInt(TargetView, i32),
    /// Store a float, given by its bits.
    SetFloat(TargetView, u32),
    /// Store a text string.
    SetString(TargetView, Seq<u8>),
    /// Store a byte string.
    SetBuffer(TargetView, Seq<u8>),
    /// Store an encoded value.
    SetCbor(TargetView, Seq<u8>),
    /// Read an unsigned integer.
    GetUint(TargetView),
    /// Read a signed integer.
    GetInt(TargetView),
    /// Read a float.
    GetFloat(TargetView),
    /// Read a text string into a buffer of this size.
    GetString(TargetView, u8),
    /// Read a byte string into a buffer of this size.
    GetBuffer(TargetView, u8),
    /// Read an encoded value into a buffer of this size.
    GetCbor(TargetView, u8),
    /// Read how long a value is.
    ValueSize(TargetView),
    /// Remove a key.
    Remove(TargetView),
    /// Remove every key of a partition.
    Clear(Partition),
    /// Save a partition, without a restart.
    Save(Partition),
    /// Load every partition.
    Reload,
    /// Overwrite one byte of a stored image, its offset counted modulo the image's length.
    Corrupt(Partition, u16, u8),
    /// Make a stored image load: cap its number of keys and give it a valid checksum.
    FixCrc(Partition),
}

impl View for Op {
    type V = OpView;

    open spec fn view(&self) -> OpView {
        match self {
            Op::SetUint(a, b) => OpView::SetUint(a@, *b),
            Op::SetInt(a, b) => OpView::SetInt(a@, *b),
            Op::SetFloat(a, b) => OpView::SetFloat(a@, *b),
            Op::SetString(a, b) => OpView::SetString(a@, b@),
            Op::SetBuffer(a, b) => OpView::SetBuffer(a@, b@),
            Op::SetCbor(a, b) => OpView::SetCbor(a@, b@),
            Op::GetUint(a) => OpView::GetUint(a@),
            Op::GetInt(a) => OpView::GetInt(a@),
            Op::GetFloat(a) => OpView::GetFloat(a@),
            Op::GetString(a, b) => OpView::GetString(a@, *b),
            Op::GetBuffer(a, b) => OpView::GetBuffer(a@, *b),
            Op::GetCbor(a, b) => OpView::GetCbor(a@, *b),
            Op::ValueSize(a) => OpView::ValueSize(a@),
            Op::Remove(a) => OpView::Remove(a@),
            Op::Clear(a) => OpView::Clear(*a),
            Op::Save(a) => OpView::Save(*a),
            Op::Reload => OpView::Reload,
            Op::Corrupt(a, b, c) => OpView::Corrupt(*a, *b, *c),
            Op::FixCrc(a) => OpView::FixCrc(*a),
        }
    }
}

/// An operation, as it is drawn.
#[verifier::opaque]
pub open spec fn drawn_op(s: Seq<u8>) -> (OpView, Seq<u8>) {
    let choice = in_range(s, 0, 18);
    let s0 = past_range(s, 18);
    if choice == 0 {
        let (target, s1) = drawn_target(s0);
        let s2 = rest(s1, 4);
        (OpView::SetUint(target, le(padded(s1, 4)) as u32), s2)
    } else if choice == 1 {
        let (target, s1) = drawn_target(s0);
        let s2 = rest(s1, 4);
        (OpView::SetInt(target, (le(padded(s1, 4)) as u32) as i32), s2)
    } else if choice == 2 {
        let (target, s1) = drawn_target(s0);
        let s2 = rest(s1, 4);
        (OpView::SetFloat(target, le(padded(s1, 4)) as u32), s2)
    } else if choice == 3 {
        let (target, s1) = drawn_target(s0);
        let s2 = past_bounded(s1, 60);
        (OpView::SetString(target, drawn_bounded(s1, 60)), s2)
    } else if choice == 4 {
        let (target, s1) = drawn_target(s0);
        let s2 = past_bounded(s1, 60);
        (OpView::SetBuffer(target, drawn_bounded(s1, 60)), s2)
    } else if choice == 5 {
        let (target, s1) = drawn_target(s0);
        let (value, s2) = drawn_value(s1);
        (OpView::SetCbor(target, value), s2)
    } else if choice == 6 {
        let (target, s1) = drawn_target(s0);
        (OpView::GetUint(target), s1)
    } else if choice == 7 {
        let (target, s1) = drawn_target(s0);
        (OpView::GetInt(target), s1)
    } else if choice == 8 {
        let (target, s1) = drawn_target(s0);
        (OpView::GetFloat(target), s1)
    } else if choice == 9 {
        let (target, s1) = drawn_target(s0);
        let s2 = past_range(s1, 60);
        (OpView::GetString(target, in_range(s1, 0, 60) as u8), s2)
    } else if choice == 10 {
        let (target, s1) = drawn_target(s0);
        let s2 = past_range(s1, 60);
        (OpView::GetBuffer(target, in_range(s1, 0, 60) as u8), s2)
    } else if choice == 11 {
        let (target, s1) = drawn_target(s0);
        let s2 = past_range(s1, 60);
        (OpView::GetCbor(target, in_range(s1, 0, 60) as u8), s2)
    } else if choice == 12 {
        let (target, s1) = drawn_target(s0);
        (OpView::ValueSize(target), s1)
    } else if choice == 13 {
        let (target, s1) = drawn_target(s0);
        (OpView::Remove(target), s1)
    } else if choice == 14 {
        let s1 = past_range(s0, 3);
        (OpView::Clear(partition_of(in_range(s0, 0, 3))), s1)
    } else if choice == 15 {
        let s1 = past_range(s0, 3);
        (OpView::Save(partition_of(in_range(s0, 0, 3))), s1)
    } else if choice == 16 {
        (OpView::Reload, s0)
    } else if choice == 17 {
        let s1 = past_range(s0, 3);
        let s2 = rest(s1, 2);
        let s3 = rest(s2, 1);
        (OpView::Corrupt(partition_of(in_range(s0, 0, 3)), le(padded(s1, 2)) as u16, padded(s2, 1)[0]), s3)
    } else {
        let s1 = past_range(s0, 3);
        (OpView::FixCrc(partition_of(in_range(s0, 0, 3))), s1)
    }
}

impl Op {
    /// Draw an operation.
    pub fn arbitrary(u: &mut Unstructured<'_>) -> (r: Self)
        ensures
            (r@, unread(final(u))) == drawn_op(unread(old(u))),
    {
        reveal(drawn_op);
        match draw_in_range(u, 0, 18) {
            0 => {
                let a = Target::arbitrary(u);
                let b = draw_u32(u);
                Op::SetUint(a, b)
            },
            1 => {
                let a = Target::arbitrary(u);
                let b = draw_i32(u);
                Op::SetInt(a, b)
            },
            2 => {
                let a = Target::arbitrary(u);
                let b = draw_u32(u);
                Op::SetFloat(a, b)
            },
            3 => {
                let a = Target::arbitrary(u);
                let b = bounded_bytes(u, 60);
                Op::SetString(a, b)
            },
            4 => {
                let a = Target::arbitrary(u);
                let b = bounded_bytes(u, 60);
                Op::SetBuffer(a, b)
            },
            5 => {
                let a = Target::arbitrary(u);
                let b = cbor_value(u);
                Op::SetCbor(a, b)
            },
            6 => {
                let a = Target::arbitrary(u);
                Op::GetUint(a)
            },
            7 => {
                let a = Target::arbitrary(u);
                Op::GetInt(a)
            },
            8 => {
                let a = Target::arbitrary(u);
                Op::GetFloat(a)
            },
            9 => {
                let a = Target::arbitrary(u);
                let b: u8 = draw_in_range(u, 0, 60) as u8;
                Op::GetString(a, b)
            },
            10 => {
                let a = Target::arbitrary(u);
                let b: u8 = draw_in_range(u, 0, 60) as u8;
                Op::GetBuffer(a, b)
            },
            11 => {
                let a = Target::arbitrary(u);
                let b: u8 = draw_in_range(u, 0, 60) as u8;
                Op::GetCbor(a, b)
            },
            12 => {
                let a = Target::arbitrary(u);
                Op::ValueSize(a)
            },
            13 => {
                let a = Target::arbitrary(u);
                Op::Remove(a)
            },
            14 => {
                let a = partition(u);
                Op::Clear(a)
            },
            15 => {
                let a = partition(u);
                Op::Save(a)
            },
            16 => Op::Reload,
            17 => {
                let a = partition(u);
                let b = draw_u16(u);
                let c = draw_u8(u);
                Op::Corrupt(a, b, c)
            },
            _ => {
                let a = partition(u);
                Op::FixCrc(a)
            },
        }
    }
}

/// A script.
#[derive(Debug)]
pub struct ConfigInput {
    /// Operations, in order.
    pub ops: Vec<Op>,
}

/// `n` operations, as they are drawn.
pub open spec fn drawn_ops(s: Seq<u8>, n: nat) -> Seq<OpView>
    decreases n,
{
    if n == 0 {
        Seq::empty()
    } else {
        let (op, left) = drawn_op(s);
        seq![op] + drawn_ops(left, (n - 1) as nat)
    }
}

/// What drawing `n` operations leaves of `s`.
pub open spec fn past_ops(s: Seq<u8>, n: nat) -> Seq<u8>
    decreases n,
{
    if n == 0 {
        s
    } else {
        past_ops(drawn_op(s).1, (n - 1) as nat)
    }
}

/// Operations, as values.
pub open spec fn ops_view(ops: Seq<Op>) -> Seq<OpView> {
    ops.map_values(|op: Op| op@)
}

impl ConfigInput {
    /// Draw a script: how many operations, then the operations.
    pub fn arbitrary(u: &mut Unstructured<'_>) -> (r: Self)
        ensures
            ({
                let s = unread(old(u));
                let n = in_range(s, 0, 64) as nat;
                &&& ops_view(r.ops@) == drawn_ops(past_range(s, 64), n)
                &&& unread(final(u)) == past_ops(past_range(s, 64), n)
            }),
            r.ops@.len() <= MAX_OPS,
    {
        let n = draw_in_range(u, 0, 64);
        let ghost all = drawn_ops(unread(u), n as nat);
        let ghost end = past_ops(unread(u), n as nat);
        let mut ops: Vec<Op> = Vec::new();
        let mut done: u64 = 0;
        assert(ops_view(ops@) =~= Seq::<OpView>::empty());
        while done < n
            invariant
                done <= n <= 64,
                ops@.len() == done,
                ops_view(ops@) + drawn_ops(unread(u), (n - done) as nat) =~= all,
                past_ops(unread(u), (n - done) as nat) == end,
            decreases n - done,
        {
            let ghost before = ops_view(ops@);
            let ghost s = unread(u);
            let op = Op::arbitrary(u);
            ops.push(op);
            proof {
                assert(ops_view(ops@) =~= before.push(op@));
                assert(before + drawn_ops(s, (n - done) as nat) =~= ops_view(ops@) + drawn_ops(
                    unread(u),
                    (n - done - 1) as nat,
                ));
            }
            done = done + 1;
        }
        ConfigInput { ops }
    }

    /// The script a seed file holds.
    pub fn from_seed(seed: &[u8]) -> (r: Self)
        ensures
            ops_view(r.ops@) == drawn_ops(past_range(seed@, 64), in_range(seed@, 0, 64) as nat),
    {
        let mut u = source(seed);
        ConfigInput::arbitrary(&mut u)
    }
}

/// Cap the number of keys a stored image declares, before its checksum is
/// taken.
pub fn cap_key_count(image: &mut [u8])
    requires
        old(image)@.len() > NUM_KEYS_OFFSET,
    ensures
        final(image)@ == old(image)@.update(
            NUM_KEYS_OFFSET as int,
            old(image)@[NUM_KEYS_OFFSET as int] % 51,
        ),
        final(image)@[NUM_KEYS_OFFSET as int] <= MAX_NUM_KV,
{
    image[NUM_KEYS_OFFSET] = image[NUM_KEYS_OFFSET] % 51;
    assert(image@ =~= old(image)@.update(
        NUM_KEYS_OFFSET as int,
        old(image)@[NUM_KEYS_OFFSET as int] % 51,
    ));
}

/// Write the checksum of everything after it into a stored image.
pub fn fix_crc(image: &mut [u8], crc: u32)
    requires
        old(image)@.len() >= 4,
    ensures
        final(image)@ == overlay(old(image)@, 0, le_bytes(crc as nat, 4)),
{
    broadcast use lemma_le_bytes_len;

    let mut bytes: Vec<u8> = Vec::new();
    push_le(&mut bytes, crc as u64, 4);
    assert(bytes@ =~= le_bytes(crc as nat, 4));
    put(image, 0, bytes.as_slice());
}

/// Overwrite one byte of a stored image.
pub fn corrupt(image: &mut [u8], offset: u16, byte: u8)
    requires
        old(image)@.len() > 0,
    ensures
        final(image)@ == old(image)@.update(offset as int % old(image)@.len() as int, byte),
{
    let at: usize = (offset as usize) % image.len();
    image[at] = byte;
    assert(image@ =~= old(image)@.update(at as int, byte));
}

/// Whether reading this value as a signed integer would negate the most
/// negative one, which the reference leaves undefined.
#[must_use]
pub fn is_int64_min_minus_one(head: Option<(u8, u64)>) -> (r: bool)
    ensures
        r == (head == Some((1u8, 0x8000_0000_0000_0000u64))),
{
    match head {
        Some((major, arg)) => major == 1 && arg == 0x8000_0000_0000_0000,
        None => false,
    }
}

/// What a copy out of the store came to.
#[derive(Debug, Clone, Copy, PartialEq, Eq, Structural)]
pub enum CopyOutcome {
    /// This many bytes were copied.
    Copied(usize),
    /// The buffer is too small: the value has this many bytes.
    TooSmall(usize),
    /// There is nothing to copy.
    Refused,
}

impl CopyOutcome {
    /// What the reference returns and writes back for this outcome, given a
    /// buffer of `cap` bytes.
    pub open spec fn reported(self, cap: usize) -> (bool, usize) {
        match self {
            CopyOutcome::Copied(n) => (true, n),
            CopyOutcome::TooSmall(n) => (false, n),
            CopyOutcome::Refused => (false, cap),
        }
    }

    /// What the reference returns and writes back for this outcome.
    #[must_use]
    pub fn report(self, cap: usize) -> (r: (bool, usize))
        ensures
            r == self.reported(cap),
    {
        match self {
            CopyOutcome::Copied(n) => (true, n),
            CopyOutcome::TooSmall(n) => (false, n),
            CopyOutcome::Refused => (false, cap),
        }
    }
}

/// What an operation returned, on either side.
#[derive(Debug)]
pub enum Observed {
    /// Whether it succeeded.
    Flag(bool),
    /// An unsigned integer, if there was one.
    Uint(Option<u32>),
    /// A signed integer, if there was one.
    Int(Option<i32>),
    /// A float's bits, if there was one.
    Float(Option<u32>),
    /// A length, if there was one.
    Size(Option<usize>),
    /// Whether a copy succeeded, the length written back, and the buffer.
    Copy(bool, usize, Vec<u8>),
    /// Nothing.
    Nothing,
}

/// An [`Observed`], as a value.
pub enum ObservedView {
    /// Whether it succeeded.
    Flag(bool),
    /// An unsigned integer, if there was one.
    Uint(Option<u32>),
    /// A signed integer, if there was one.
    Int(Option<i32>),
    /// A float's bits, if there was one.
    Float(Option<u32>),
    /// A length, if there was one.
    Size(Option<usize>),
    /// Whether a copy succeeded, the length written back, and the buffer.
    Copy(bool, usize, Seq<u8>),
    /// Nothing.
    Nothing,
}

impl View for Observed {
    type V = ObservedView;

    open spec fn view(&self) -> ObservedView {
        match self {
            Observed::Flag(a) => ObservedView::Flag(*a),
            Observed::Uint(a) => ObservedView::Uint(*a),
            Observed::Int(a) => ObservedView::Int(*a),
            Observed::Float(a) => ObservedView::Float(*a),
            Observed::Size(a) => ObservedView::Size(*a),
            Observed::Copy(a, b, c) => ObservedView::Copy(*a, *b, c@),
            Observed::Nothing => ObservedView::Nothing,
        }
    }
}

/// Whether an operation returned the same on both sides, the buffers it was
/// given among them.
#[must_use]
pub fn step(reference: &Observed, node: &Observed) -> (r: bool)
    ensures
        r == (reference@ == node@),
{
    match (reference, node) {
        (Observed::Flag(a), Observed::Flag(b)) => *a == *b,
        (Observed::Uint(a), Observed::Uint(b)) => match (a, b) {
            (Some(x), Some(y)) => *x == *y,
            (None, None) => true,
            _ => false,
        },
        (Observed::Int(a), Observed::Int(b)) => match (a, b) {
            (Some(x), Some(y)) => *x == *y,
            (None, None) => true,
            _ => false,
        },
        (Observed::Float(a), Observed::Float(b)) => match (a, b) {
            (Some(x), Some(y)) => *x == *y,
            (None, None) => true,
            _ => false,
        },
        (Observed::Size(a), Observed::Size(b)) => match (a, b) {
            (Some(x), Some(y)) => *x == *y,
            (None, None) => true,
            _ => false,
        },
        (Observed::Copy(a, n, p), Observed::Copy(b, m, q)) => *a == *b && *n == *m
            && first_difference(p.as_slice(), q.as_slice()).is_none(),
        (Observed::Nothing, Observed::Nothing) => true,
        _ => false,
    }
}

/// One partition, on both sides.
#[derive(Debug)]
pub struct PartitionState {
    /// The reference's image in memory.
    pub reference_image: Vec<u8>,
    /// The node's image in memory.
    pub node_image: Vec<u8>,
    /// Whether the reference has unsaved changes.
    pub reference_uncommitted: bool,
    /// Whether the node has unsaved changes.
    pub node_uncommitted: bool,
    /// How many keys the node's partition lists.
    pub node_keys: usize,
    /// The reference's image in storage.
    pub reference_flash: Vec<u8>,
    /// The node's image in storage.
    pub node_flash: Vec<u8>,
}

/// How two partitions differ.
#[derive(Debug, Clone, Copy, PartialEq, Eq, Structural)]
pub enum StateDivergence {
    /// The images in memory differ, first at this byte.
    Image(usize),
    /// One side has unsaved changes and the other has none.
    Uncommitted,
    /// The node lists another number of keys than the image declares.
    Keys,
    /// The images in storage differ, first at this byte.
    Flash(usize),
}

/// Whether a partition is in the same state on both sides.
pub fn compare_state(state: &PartitionState) -> (r: Result<(), StateDivergence>)
    requires
        state.reference_image@.len() > NUM_KEYS_OFFSET,
    ensures
        r is Ok <==> {
            &&& state.reference_image@ == state.node_image@
            &&& state.reference_uncommitted == state.node_uncommitted
            &&& state.node_keys == state.reference_image@[NUM_KEYS_OFFSET as int]
            &&& state.reference_flash@ == state.node_flash@
        },
        r matches Err(divergence) ==> match divergence {
            StateDivergence::Image(at) => differ_first_at(
                state.reference_image@,
                state.node_image@,
                at as int,
            ),
            StateDivergence::Uncommitted => {
                &&& state.reference_image@ == state.node_image@
                &&& state.reference_uncommitted != state.node_uncommitted
            },
            StateDivergence::Keys => {
                &&& state.reference_image@ == state.node_image@
                &&& state.reference_uncommitted == state.node_uncommitted
                &&& state.node_keys != state.reference_image@[NUM_KEYS_OFFSET as int]
            },
            StateDivergence::Flash(at) => {
                &&& state.reference_image@ == state.node_image@
                &&& state.reference_uncommitted == state.node_uncommitted
                &&& state.node_keys == state.reference_image@[NUM_KEYS_OFFSET as int]
                &&& differ_first_at(state.reference_flash@, state.node_flash@, at as int)
            },
        },
{
    match first_difference(state.reference_image.as_slice(), state.node_image.as_slice()) {
        Some(at) => return Err(StateDivergence::Image(at)),
        None => {},
    }
    if state.reference_uncommitted != state.node_uncommitted {
        return Err(StateDivergence::Uncommitted);
    }
    if state.node_keys != (state.reference_image[NUM_KEYS_OFFSET] as usize) {
        return Err(StateDivergence::Keys);
    }
    match first_difference(state.reference_flash.as_slice(), state.node_flash.as_slice()) {
        Some(at) => Err(StateDivergence::Flash(at)),
        None => Ok(()),
    }
}

/// Bytes that are written with their number in front are drawn back as they
/// were, and nothing behind them is touched.
pub proof fn law_bounded_bytes_are_drawn_back(max: int, body: Seq<u8>, more: Seq<u8>)
    requires
        1 <= max <= 255,
        body.len() <= max,
    ensures
        drawn_bounded(seq![body.len() as u8] + (body + more), max) =~= body,
        past_bounded(seq![body.len() as u8] + (body + more), max) =~= more,
{
    let n = body.len() as u8;
    law_a_tag_is_one_byte(n, max + 1, body + more);
    vstd::arithmetic::div_mod::lemma_small_mod(body.len(), (max + 1) as nat);
    law_what_is_written_first_is_drawn_first(body, more, 0);
}

/// The pool holds keys of every kind that matters: three of ordinary length,
/// two of one byte, one of two, three around the longest a key may be, one
/// with a byte no key may have, two that differ only behind a zero, and the
/// empty one. No two are the same.
pub proof fn law_the_pool_holds_every_kind_of_key(i: int, j: int)
    requires
        0 <= i < 13,
        0 <= j < 13,
    ensures
        pooled(i) == pooled(j) ==> i == j,
        pooled(i).len() == if i <= 2 {
            3nat
        } else if i == 3 || i == 4 {
            1
        } else if i == 5 {
            2
        } else if i <= 8 {
            (25 + i) as nat
        } else if i == 9 {
            7
        } else if i <= 11 {
            4
        } else {
            0
        },
        pooled(10).take(3) =~= pooled(11).take(3) && pooled(10)[2] == 0 && pooled(10)[3]
            != pooled(11)[3],
        pooled(7).take(31) =~= pooled(6) && pooled(8).take(32) =~= pooled(7),
        pooled(9)[3] == 0x2D,
{
    let a = pooled(i);
    let b = pooled(j);
    if a == b && i != j {
        assert(a.len() == b.len());
        assert(a[0] == b[0]);
        if a.len() >= 3 {
            assert(a[2] == b[2]);
        }
        if a.len() >= 4 {
            assert(a[3] == b[3]);
        }
    }
}

/// A string is drawn as a flag and bounded bytes, and comes out encoded: a byte
/// string for an odd flag and a text string otherwise, its length in its head.
pub proof fn law_a_string_comes_out_encoded(flag: u8, body: Seq<u8>, more: Seq<u8>)
    requires
        body.len() <= 52,
    ensures
        drawn_string(seq![flag] + (seq![body.len() as u8] + (body + more))) == (
            head(if flag % 2 == 1 { 0x40u8 } else { 0x60u8 }, body.len() as u64) + body,
            more,
        ),
{
    let s1 = seq![body.len() as u8] + (body + more);
    law_bounded_bytes_are_drawn_back(52, body, more);
    law_what_is_written_first_is_drawn_first(seq![flag], s1, 0);
    assert(string_major(seq![flag] + s1) == if flag % 2 == 1 { 0x40u8 } else { 0x60u8 });
}

/// A chunked string is its chunks one after the other. A chunk comes out with
/// its own head, of the string's kind unless it is drawn to be of the other
/// one, and opens another string in front if it is drawn to.
pub proof fn law_chunks_come_out_one_after_the_other(
    major: u8,
    kind: u8,
    nests: u8,
    body: Seq<u8>,
    s: Seq<u8>,
    n: nat,
)
    requires
        body.len() <= 10,
    ensures
        ({
            let own = if kind % 8 == 0 { major ^ 0x20 } else { major };
            let chunk = if nests % 16 == 0 {
                seq![own | 31u8] + head(own, body.len() as u64) + body
            } else {
                head(own, body.len() as u64) + body
            };
            let drawn = drawn_chunks(
                seq![kind] + (seq![nests] + (seq![body.len() as u8] + (body + s))),
                major,
                n + 1,
            );
            &&& drawn.0 =~= chunk + drawn_chunks(s, major, n).0
            &&& drawn.1 == drawn_chunks(s, major, n).1
        }),
        drawn_chunks(s, major, 0).0.len() == 0,
        drawn_chunks(s, major, 0).1 == s,
{
    let s2 = seq![body.len() as u8] + (body + s);
    let s1 = seq![nests] + s2;
    law_a_tag_is_one_byte(kind, 8, s1);
    law_a_tag_is_one_byte(nests, 16, s2);
    assert(in_range(s1, 1, 16) == 1 + in_range(s1, 0, 15));
    law_bounded_bytes_are_drawn_back(10, body, s);
}

/// A number comes out encoded with the head that its sign calls for, and a
/// float as it is, marked with its width.
#[verifier::spinoff_prover]
pub proof fn law_a_scalar_comes_out_encoded(number: u64, bits: Seq<u8>, more: Seq<u8>)
    requires
        bits.len() == 8,
    ensures
        drawn_scalar(seq![0u8] + (le_bytes(number as nat, 8) + more)) == (head(0x00, number), more),
        drawn_scalar(seq![1u8] + (le_bytes(number as nat, 8) + more)) == (head(0x20, number), more),
        drawn_scalar(seq![2u8] + (bits.take(4) + more)) == (seq![0xFAu8] + bits.take(4), more),
        drawn_scalar(seq![3u8] + (bits.take(2) + more)) == (seq![0xF9u8] + bits.take(2), more),
        drawn_scalar(seq![4u8] + (bits + more)) == (seq![0xFBu8] + bits, more),
{
    broadcast use crate::bytes::lemma_le_bytes_len;

    let n = le_bytes(number as nat, 8);
    crate::bytes::law_le_bytes_fit(number as nat);
    law_a_tag_is_one_byte(0, 5, n + more);
    law_a_tag_is_one_byte(1, 5, n + more);
    law_a_tag_is_one_byte(2, 5, bits.take(4) + more);
    law_a_tag_is_one_byte(3, 5, bits.take(2) + more);
    law_a_tag_is_one_byte(4, 5, bits + more);
    law_what_is_written_first_is_drawn_first(n, more, 0);
    law_what_is_written_first_is_drawn_first(bits.take(4), more, 0);
    law_what_is_written_first_is_drawn_first(bits.take(2), more, 0);
    law_what_is_written_first_is_drawn_first(bits, more, 0);
}

/// A container is an array, a map, a tag or a simple value, in that order, of
/// no stated length if its flag is odd.
#[verifier::spinoff_prover]
pub proof fn law_a_container_comes_out_encoded(kind: u8, flag: u8, more: Seq<u8>)
    requires
        kind < 4,
    ensures
        container_major(0) == 0x80,
        container_major(1) == 0xA0,
        container_major(2) == 0xC0,
        container_major(3) == 0xE0,
        flag % 2 == 1 ==> drawn_container(seq![kind] + (seq![flag] + more)) == (
            seq![container_major(kind as int) | 31u8],
            more,
        ),
        flag % 2 == 0 ==> drawn_container(seq![kind] + (seq![flag] + more)) == (
            head(container_major(kind as int), in_range(more, 0, 300) as u64),
            past_range(more, 300),
        ),
{
    let s1 = seq![flag] + more;
    let s = seq![kind] + s1;
    assert(in_range(s, 0, 3) == kind && past_range(s, 3) == s1) by {
        law_a_tag_is_one_byte(kind, 4, s1);
    }
    assert(rest(s1, 1) == more && odd(s1) == (flag % 2 == 1)) by {
        law_what_is_written_first_is_drawn_first(seq![flag], more, 0);
    }
    if flag % 2 == 1 {
        assert(drawn_container(s) == (seq![container_major(kind as int) | 31u8], more));
    }
}

/// A value is bytes as they are, or one of four encoded shapes with up to four
/// stray bytes behind it.
pub proof fn law_a_value_is_raw_or_encoded_with_strays(shape: u8, s: Seq<u8>)
    requires
        shape < 5,
    ensures
        ({
            let drawn = drawn_value(seq![shape] + s);
            let (encoded, left) = if shape == 1 {
                drawn_string(s)
            } else if shape == 2 {
                drawn_chunked(s)
            } else if shape == 3 {
                drawn_scalar(s)
            } else {
                drawn_container(s)
            };
            &&& shape == 0 ==> drawn == (drawn_bounded(s, 52), past_bounded(s, 52))
            &&& shape > 0 ==> drawn.0 =~= encoded + drawn_bounded(left, 4) && drawn.1
                == past_bounded(left, 4)
        }),
{
    law_a_tag_is_one_byte(shape, 5, s);
}

/// The system's partition is drawn twice as often as either of the others.
pub proof fn law_each_partition_can_be_drawn()
    ensures
        partition_of(0) is User,
        partition_of(1) is System,
        partition_of(2) is System,
        partition_of(3) is Hardware,
{
}

/// A key is one of the pool, or bytes of its own, and its length is mostly the
/// length it has.
#[verifier::spinoff_prover]
pub proof fn law_a_key_is_pooled_or_its_own(
    pick: u8,
    index: u8,
    body: Seq<u8>,
    len: int,
    more: Seq<u8>,
)
    requires
        pick < 4,
        index < 13,
        body.len() <= 34,
    ensures
        pick < 3 ==> drawn_base(seq![pick] + (seq![index] + more)) == (pooled(index as int), more),
        pick == 3 ==> drawn_base(seq![pick] + (seq![body.len() as u8] + (body + more))) == (
            body,
            more,
        ),
        drawn_key_len(seq![pick] + more, len) == (len, more),
        index <= 4 ==> drawn_key_len(seq![4u8] + (seq![index] + more), len) == (
            if len + index < 2 { 0int } else { len + index - 2 },
            more,
        ),
        drawn_key_len(seq![5u8] + (seq![index] + more), len) == (index as int, more),
{
    law_a_tag_is_one_byte(pick, 4, seq![index] + more);
    law_a_tag_is_one_byte(pick, 4, seq![body.len() as u8] + (body + more));
    let s = seq![pick] + (seq![index] + more);
    assert(in_range(s, 1, 4) == 1 + in_range(s, 0, 3));
    let t = seq![pick] + (seq![body.len() as u8] + (body + more));
    assert(in_range(t, 1, 4) == 1 + in_range(t, 0, 3));
    law_a_tag_is_one_byte(index, 13, more);
    law_bounded_bytes_are_drawn_back(34, body, more);
    law_a_tag_is_one_byte(pick, 6, more);
    law_a_tag_is_one_byte(4, 6, seq![index] + more);
    law_a_tag_is_one_byte(5, 6, seq![index] + more);
    law_a_tag_is_one_byte(index, 5, more);
    law_a_tag_is_one_byte(index, 41, more);
}

/// A key of the pool comes out as it is, with nothing behind it.
#[verifier::spinoff_prover]
pub proof fn law_a_pooled_key_is_drawn(index: u8, more: Seq<u8>)
    requires
        index < 13,
    ensures
        drawn_key(seq![0u8] + (seq![index] + (seq![0u8] + (seq![1u8] + more)))) == (
            (pooled(index as int), pooled(index as int).len() as int),
            more,
        ),
{
    let s3 = seq![1u8] + more;
    let s2 = seq![0u8] + s3;
    let key = pooled(index as int);
    let s = seq![0u8] + (seq![index] + s2);
    assert(drawn_base(s) == (key, s2)) by {
        law_a_key_is_pooled_or_its_own(0, index, Seq::empty(), key.len() as int, s2);
    }
    assert(drawn_key_len(s2, key.len() as int) == (key.len() as int, s3)) by {
        law_a_key_is_pooled_or_its_own(0, index, Seq::empty(), key.len() as int, s3);
    }
    assert(in_range(s3, 1, 5) == 2 && past_range(s3, 4) == more) by {
        law_a_tag_is_one_byte(1, 5, more);
        assert(in_range(s3, 1, 5) == 1 + in_range(s3, 0, 4));
    }
    assert(key + Seq::<u8>::empty() =~= key);
}

/// A key may trail bytes past its length, if it is drawn to.
#[verifier::spinoff_prover]
pub proof fn law_a_key_may_trail_a_value(index: u8, body: Seq<u8>, more: Seq<u8>)
    requires
        index < 13,
        body.len() <= 8,
    ensures
        drawn_key(
            seq![0u8] + (seq![index] + (seq![0u8] + (seq![0u8] + (seq![body.len() as u8] + (body
                + more))))),
        ) == ((pooled(index as int) + body, pooled(index as int).len() as int), more),
{
    let s4 = seq![body.len() as u8] + (body + more);
    let s3 = seq![0u8] + s4;
    let s2 = seq![0u8] + s3;
    let key = pooled(index as int);
    let s = seq![0u8] + (seq![index] + s2);
    assert(drawn_base(s) == (key, s2)) by {
        law_a_key_is_pooled_or_its_own(0, index, Seq::empty(), key.len() as int, s2);
    }
    assert(drawn_key_len(s2, key.len() as int) == (key.len() as int, s3)) by {
        law_a_key_is_pooled_or_its_own(0, index, Seq::empty(), key.len() as int, s3);
    }
    assert(in_range(s3, 1, 5) == 1 && past_range(s3, 4) == s4) by {
        law_a_tag_is_one_byte(0, 5, s4);
        assert(in_range(s3, 1, 5) == 1 + in_range(s3, 0, 4));
    }
    assert(drawn_bounded(s4, 8) == body && past_bounded(s4, 8) == more) by {
        law_bounded_bytes_are_drawn_back(8, body, more);
    }
}

/// A target is a partition and the key behind it.
pub proof fn law_a_target_is_a_partition_and_a_key(
    partition: u8,
    s: Seq<u8>,
    text: Seq<u8>,
    len: int,
    more: Seq<u8>,
)
    requires
        partition < 4,
        drawn_key(s) == ((text, len), more),
    ensures
        drawn_target(seq![partition] + s).0.partition == partition_of(partition as int),
        drawn_target(seq![partition] + s).0.text == text,
        drawn_target(seq![partition] + s).0.len == len,
        drawn_target(seq![partition] + s).1 == more,
{
    law_a_tag_is_one_byte(partition, 4, s);
    assert(past_range(seq![partition] + s, 3) == s);
}

/// Every operation has a tag of its own, and is drawn on the target behind it
/// with what it needs behind that.
#[verifier::spinoff_prover]
pub proof fn law_every_operation_has_its_tag(s: Seq<u8>, tag: u8)
    requires
        tag < 19,
    ensures
        ({
            let (op, left) = drawn_op(seq![tag] + s);
            let (target, t) = drawn_target(s);
            let partition = partition_of(in_range(s, 0, 3));
            let p = past_range(s, 3);
            match op {
                OpView::SetUint(on, v) => tag == 0 && on == target && v == le(padded(t, 4))
                    && left == rest(t, 4),
                OpView::SetInt(on, v) => tag == 1 && on == target && v == (le(padded(t, 4)) as u32)
                    as i32 && left == rest(t, 4),
                OpView::SetFloat(on, v) => tag == 2 && on == target && v == le(padded(t, 4))
                    && left == rest(t, 4),
                OpView::SetString(on, v) => tag == 3 && on == target && v == drawn_bounded(t, 60)
                    && left == past_bounded(t, 60),
                OpView::SetBuffer(on, v) => tag == 4 && on == target && v == drawn_bounded(t, 60)
                    && left == past_bounded(t, 60),
                OpView::SetCbor(on, v) => tag == 5 && on == target && (v, left) == drawn_value(t),
                OpView::GetUint(on) => tag == 6 && on == target && left == t,
                OpView::GetInt(on) => tag == 7 && on == target && left == t,
                OpView::GetFloat(on) => tag == 8 && on == target && left == t,
                OpView::GetString(on, cap) => tag == 9 && on == target && cap == in_range(t, 0, 60)
                    && left == past_range(t, 60),
                OpView::GetBuffer(on, cap) => tag == 10 && on == target && cap == in_range(
                    t,
                    0,
                    60,
                ) && left == past_range(t, 60),
                OpView::GetCbor(on, cap) => tag == 11 && on == target && cap == in_range(t, 0, 60)
                    && left == past_range(t, 60),
                OpView::ValueSize(on) => tag == 12 && on == target && left == t,
                OpView::Remove(on) => tag == 13 && on == target && left == t,
                OpView::Clear(on) => tag == 14 && on == partition && left == p,
                OpView::Save(on) => tag == 15 && on == partition && left == p,
                OpView::Reload => tag == 16 && left == s,
                OpView::Corrupt(on, offset, byte) => tag == 17 && on == partition && offset == le(
                    padded(p, 2),
                ) && byte == padded(rest(p, 2), 1)[0] && left == rest(rest(p, 2), 1),
                OpView::FixCrc(on) => tag == 18 && on == partition && left == p,
            }
        }),
{
    reveal(drawn_op);
    law_a_tag_is_one_byte(tag, 19, s);
    assert(past_range(seq![tag] + s, 18) =~= s);
    law_a_draw_stays_in_its_range(drawn_target(s).1, 0, 60);
    let t = drawn_target(s).1;
    lemma_four_bytes_fit(padded(t, 4));
    lemma_two_bytes_fit(padded(past_range(s, 3), 2));
}

/// Four bytes hold no more than thirty-two bits.
proof fn lemma_four_bytes_fit(s: Seq<u8>)
    requires
        s.len() == 4,
    ensures
        le(s) <= u32::MAX,
{
    reveal_with_fuel(le, 5);
}

/// Two bytes hold no more than sixteen bits.
proof fn lemma_two_bytes_fit(s: Seq<u8>)
    requires
        s.len() == 2,
    ensures
        le(s) <= u16::MAX,
{
    reveal_with_fuel(le, 3);
}

/// A script is its operations one after the other.
pub proof fn law_a_script_is_drawn_operation_by_operation(s: Seq<u8>, n: nat)
    ensures
        drawn_ops(s, 0).len() == 0,
        drawn_ops(s, n + 1) =~= seq![drawn_op(s).0] + drawn_ops(drawn_op(s).1, n),
        past_ops(s, 0) == s,
        past_ops(s, n + 1) == past_ops(drawn_op(s).1, n),
{
}

/// A copy succeeds exactly if something was copied; what is written back is the
/// value's length, fit or not, and the buffer's where there is no value.
pub proof fn law_a_copy_reports_the_length_of_the_value(n: usize, cap: usize)
    ensures
        CopyOutcome::Copied(n).reported(cap) == (true, n),
        CopyOutcome::TooSmall(n).reported(cap) == (false, n),
        CopyOutcome::Refused.reported(cap) == (false, cap),
{
}

/// Two observations look the same only if they are of one kind and say the
/// same, and so do two operations.
pub proof fn law_observations_and_operations_are_told_apart(
    a: Observed,
    b: Observed,
    x: Target,
    y: Target,
)
    ensures
        a@ == b@ ==> match (a, b) {
            (Observed::Flag(p), Observed::Flag(q)) => p == q,
            (Observed::Uint(p), Observed::Uint(q)) => p == q,
            (Observed::Int(p), Observed::Int(q)) => p == q,
            (Observed::Float(p), Observed::Float(q)) => p == q,
            (Observed::Size(p), Observed::Size(q)) => p == q,
            (Observed::Copy(p, m, v), Observed::Copy(q, n, w)) => p == q && m == n && v@ == w@,
            (Observed::Nothing, Observed::Nothing) => true,
            _ => false,
        },
        x@ == y@ ==> x.partition == y.partition && x.key.text@ == y.key.text@ && x.key.len
            == y.key.len,
{
}

/// A length moves by what it is moved by, but not below nothing; the longer of
/// two lengths is one of them and no shorter than either.
pub proof fn law_lengths_move_and_compare(len: int, by: int, a: nat, b: nat)
    requires
        len >= 0,
    ensures
        len + by >= 0 ==> moved(len, by) == len + by,
        len + by < 0 ==> moved(len, by) == 0,
        longer(a, b) >= a && longer(a, b) >= b && (longer(a, b) == a || longer(a, b) == b),
{
}

/// A chunked string opens with its own head and holds as many chunks as it was
/// drawn with. It is ended with a break in all but the last of eight choices.
#[verifier::spinoff_prover]
pub proof fn law_a_chunked_string_is_mostly_ended(
    flag: u8,
    count: u8,
    s: Seq<u8>,
    end: u8,
    more: Seq<u8>,
)
    requires
        count <= 4,
        end < 8,
        drawn_chunks(s, if flag % 2 == 1 { 0x40u8 } else { 0x60u8 }, count as nat).1 == seq![end]
            + more,
    ensures
        ({
            let major = if flag % 2 == 1 { 0x40u8 } else { 0x60u8 };
            let chunks = drawn_chunks(s, major, count as nat).0;
            drawn_chunked(seq![flag] + (seq![count] + s)) == (
                if end < 7 {
                    seq![major | 31u8] + chunks + seq![0xFFu8]
                } else {
                    seq![major | 31u8] + chunks
                },
                more,
            )
        }),
{
    let s1 = seq![count] + s;
    let major = if flag % 2 == 1 { 0x40u8 } else { 0x60u8 };
    let s2 = seq![end] + more;
    assert(string_major(seq![flag] + s1) == major && rest(seq![flag] + s1, 1) == s1) by {
        law_what_is_written_first_is_drawn_first(seq![flag], s1, 0);
    }
    assert(in_range(s1, 0, 4) == count && past_range(s1, 4) == s) by {
        law_a_tag_is_one_byte(count, 5, s);
    }
    assert(in_range(s2, 1, 8) == 1 + end && past_range(s2, 7) == more) by {
        law_a_tag_is_one_byte(end, 8, more);
        assert(in_range(s2, 1, 8) == 1 + in_range(s2, 0, 7));
    }
    let chunks = drawn_chunks(s, major, count as nat).0;
    assert(seq![major | 31u8] + chunks + Seq::<u8>::empty() =~= seq![major | 31u8] + chunks);
}

} // verus!
