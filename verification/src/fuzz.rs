//! Drawing values out of raw fuzzer bytes, through the `arbitrary` crate.
//!
//! Everything a fuzzer puts to a comparator is drawn through the functions
//! here, so that an input is a function of the bytes it was drawn from: a seed
//! file replays the same way everywhere.
use vstd::prelude::*;

use crate::bytes::{be, le, shorter};
use arbitrary::Unstructured;

verus! {

/// `arbitrary::Unstructured`, a cursor over raw bytes.
#[verifier::external_type_specification]
#[verifier::external_body]
pub struct ExUnstructured<'a>(arbitrary::Unstructured<'a>);

/// The bytes an `Unstructured` has not handed out yet.
pub uninterp spec fn unread(u: &Unstructured<'_>) -> Seq<u8>;

/// The raw bytes ran out before a value was complete.
#[derive(Debug, Clone, Copy, PartialEq, Eq, Structural)]
pub struct NotEnoughData;

/// The first `n` bytes of `s`, padded with zeros past its end.
pub open spec fn padded(s: Seq<u8>, n: nat) -> Seq<u8> {
    Seq::new(n, |i: int| if i < s.len() { s[i] } else { 0u8 })
}

/// What is left of `s` once up to `n` bytes are gone from the front.
pub open spec fn rest(s: Seq<u8>, n: nat) -> Seq<u8> {
    if n <= s.len() {
        s.subrange(n as int, s.len() as int)
    } else {
        Seq::empty()
    }
}

/// How many bytes a draw from a range that spans `span` takes, at most: as many
/// as it takes to write `span` down.
pub open spec fn range_width(span: int) -> nat
    decreases span,
{
    if span <= 0 {
        0
    } else {
        1 + range_width(span / 256)
    }
}

/// How many bytes of `s` a draw from a range that spans `span` takes.
pub open spec fn range_used(s: Seq<u8>, span: int) -> nat {
    shorter(range_width(span), s.len())
}

/// The value a draw from `lo..=hi` gives: the bytes it takes, as a big-endian
/// number, folded into the range. The low end, once the bytes have run out.
pub open spec fn in_range(s: Seq<u8>, lo: int, hi: int) -> int {
    lo + be(s.subrange(0, range_used(s, hi - lo) as int)) as int % (hi - lo + 1)
}

/// What a draw from a range that spans `span` leaves of `s`.
pub open spec fn past_range(s: Seq<u8>, span: int) -> Seq<u8> {
    rest(s, range_used(s, span))
}

/// Whether the next byte, drawn as a boolean, is true: its lowest bit.
pub open spec fn odd(s: Seq<u8>) -> bool {
    padded(s, 1)[0] % 2 == 1
}

/// The number of elements a collection of bytes is drawn with. It comes off
/// the end of the bytes, and never asks for more than they then hold.
pub open spec fn drawn_len(s: Seq<u8>) -> int {
    let most = past_len(s).len() as int;
    be(s.subrange(most, most + range_width(most))) as int % (most + 1)
}

/// How many bytes the number of elements takes off the end of `n`.
pub open spec fn len_width(n: nat) -> nat {
    if n <= 1 {
        n
    } else if n <= 0x100 {
        1
    } else if n <= 0x1_0001 {
        2
    } else if n <= 0x1_0000_0003 {
        4
    } else {
        8
    }
}

/// What drawing the number of elements leaves of `s`.
pub open spec fn past_len(s: Seq<u8>) -> Seq<u8> {
    s.subrange(0, s.len() - len_width(s.len()))
}

/// The bytes a vector of bytes is drawn as: one byte after every odd byte, up
/// to the first even one.
pub open spec fn drawn_vec(s: Seq<u8>) -> Seq<u8>
    decreases s.len(),
{
    if s.len() == 0 || !odd(s) {
        Seq::empty()
    } else {
        seq![padded(rest(s, 1), 1)[0]] + drawn_vec(rest(s, 2))
    }
}

/// What drawing a vector of bytes leaves of `s`.
pub open spec fn past_vec(s: Seq<u8>) -> Seq<u8>
    decreases s.len(),
{
    if s.len() == 0 || !odd(s) {
        rest(s, 1)
    } else {
        past_vec(rest(s, 2))
    }
}

/// `Unstructured::new`: a cursor at the start of `data`.
#[verifier::external_body]
pub(crate) fn source<'a>(data: &'a [u8]) -> (r: Unstructured<'a>)
    ensures
        unread(&r) == data@,
{
    Unstructured::new(data)
}

/// `Unstructured::is_empty`: whether every byte has been handed out.
#[verifier::external_body]
pub(crate) fn is_empty(u: &Unstructured<'_>) -> (r: bool)
    ensures
        r == (unread(u).len() == 0),
{
    u.is_empty()
}

/// `u8::arbitrary`: the next byte, or zero once the bytes have run out. It
/// always succeeds.
#[verifier::external_body]
pub(crate) fn draw_u8(u: &mut Unstructured<'_>) -> (r: u8)
    ensures
        r == padded(unread(old(u)), 1)[0],
        unread(final(u)) == rest(unread(old(u)), 1),
{
    u.arbitrary::<u8>().expect("drawing a u8 always succeeds")
}

/// `u16::arbitrary`: the next two bytes, little-endian, with zeros past the
/// end. It always succeeds.
#[verifier::external_body]
pub(crate) fn draw_u16(u: &mut Unstructured<'_>) -> (r: u16)
    ensures
        r == le(padded(unread(old(u)), 2)),
        unread(final(u)) == rest(unread(old(u)), 2),
{
    u.arbitrary::<u16>().expect("drawing a u16 always succeeds")
}

/// `u32::arbitrary`: the next four bytes, little-endian, with zeros past the
/// end. It always succeeds.
#[verifier::external_body]
pub(crate) fn draw_u32(u: &mut Unstructured<'_>) -> (r: u32)
    ensures
        r == le(padded(unread(old(u)), 4)),
        unread(final(u)) == rest(unread(old(u)), 4),
{
    u.arbitrary::<u32>().expect("drawing a u32 always succeeds")
}

/// `u64::arbitrary`: the next eight bytes, little-endian, with zeros past the
/// end. It always succeeds.
#[verifier::external_body]
pub(crate) fn draw_u64(u: &mut Unstructured<'_>) -> (r: u64)
    ensures
        r == le(padded(unread(old(u)), 8)),
        unread(final(u)) == rest(unread(old(u)), 8),
{
    u.arbitrary::<u64>().expect("drawing a u64 always succeeds")
}

/// `i32::arbitrary`: as `u32::arbitrary`, read in two's complement. It always
/// succeeds.
#[verifier::external_body]
pub(crate) fn draw_i32(u: &mut Unstructured<'_>) -> (r: i32)
    ensures
        r == (le(padded(unread(old(u)), 4)) as u32) as i32,
        unread(final(u)) == rest(unread(old(u)), 4),
{
    u.arbitrary::<i32>().expect("drawing an i32 always succeeds")
}

/// `i64::arbitrary`: as `u64::arbitrary`, read in two's complement. It always
/// succeeds.
#[verifier::external_body]
pub(crate) fn draw_i64(u: &mut Unstructured<'_>) -> (r: i64)
    ensures
        r == (le(padded(unread(old(u)), 8)) as u64) as i64,
        unread(final(u)) == rest(unread(old(u)), 8),
{
    u.arbitrary::<i64>().expect("drawing an i64 always succeeds")
}

/// `bool::arbitrary`: whether the next byte is odd; false once the bytes have
/// run out. It always succeeds.
#[verifier::external_body]
pub(crate) fn draw_bool(u: &mut Unstructured<'_>) -> (r: bool)
    ensures
        r == odd(unread(old(u))),
        unread(final(u)) == rest(unread(old(u)), 1),
{
    u.arbitrary::<bool>().expect("drawing a bool always succeeds")
}

/// `Option::<u8>::arbitrary`: a boolean, and a byte if it is true. It always
/// succeeds.
#[verifier::external_body]
pub(crate) fn draw_option(u: &mut Unstructured<'_>) -> (r: Option<u8>)
    ensures
        ({
            let s = unread(old(u));
            if odd(s) {
                &&& r == Some(padded(rest(s, 1), 1)[0])
                &&& unread(final(u)) == rest(rest(s, 1), 1)
            } else {
                &&& r is None
                &&& unread(final(u)) == rest(s, 1)
            }
        }),
{
    u.arbitrary::<Option<u8>>().expect("drawing an optional byte always succeeds")
}

/// `<[u8; N]>::arbitrary`: the next `N` bytes, with zeros past the end. It
/// always succeeds.
#[verifier::external_body]
pub(crate) fn draw_array<const N: usize>(u: &mut Unstructured<'_>) -> (r: [u8; N])
    ensures
        r@ == padded(unread(old(u)), N as nat),
        unread(final(u)) == rest(unread(old(u)), N as nat),
{
    u.arbitrary::<[u8; N]>().expect("drawing an array of bytes always succeeds")
}

/// The `n` bytes an array that is drawn last is made of: the next `n`, but for
/// the last of them, which is drawn again, from what is left by then.
pub open spec fn last_array(s: Seq<u8>, n: nat) -> Seq<u8> {
    padded(s, n).update(n - 1, padded(s, n + 1)[n as int])
}

/// `<[u8; N]>::arbitrary_take_rest`: the next `N` bytes, with zeros past the
/// end, and then the last of them overwritten with the byte after them, or
/// zero. It always succeeds.
#[verifier::external_body]
pub(crate) fn draw_last_array<const N: usize>(u: Unstructured<'_>) -> (r: [u8; N])
    requires
        0 < N,
    ensures
        r@ == last_array(unread(&u), N as nat),
{
    <[u8; N] as arbitrary::Arbitrary>::arbitrary_take_rest(u)
        .expect("drawing an array of bytes always succeeds")
}

/// `Vec::<u8>::arbitrary`: one byte after every odd byte, up to the first even
/// one or the end. It always succeeds.
#[verifier::external_body]
pub(crate) fn draw_vec(u: &mut Unstructured<'_>) -> (r: Vec<u8>)
    ensures
        r@ == drawn_vec(unread(old(u))),
        unread(final(u)) == past_vec(unread(old(u))),
{
    u.arbitrary::<Vec<u8>>().expect("drawing a vector of bytes always succeeds")
}

/// `Unstructured::int_in_range` on `u64`: a number from `lo..=hi`, made of as
/// many bytes as the range needs, or of as many as are left. It panics on an
/// empty range and otherwise always succeeds.
#[verifier::external_body]
pub(crate) fn draw_in_range(u: &mut Unstructured<'_>, lo: u64, hi: u64) -> (r: u64)
    requires
        lo <= hi,
    ensures
        r == in_range(unread(old(u)), lo as int, hi as int),
        unread(final(u)) == past_range(unread(old(u)), hi - lo),
{
    u.int_in_range(lo..=hi).expect("drawing from a range always succeeds")
}

/// `Unstructured::choose_index`: an index below `len`, drawn as from
/// `0..=len - 1`. It fails only for a `len` of zero.
#[verifier::external_body]
pub(crate) fn draw_index(u: &mut Unstructured<'_>, len: usize) -> (r: usize)
    requires
        0 < len,
    ensures
        r == in_range(unread(old(u)), 0, len - 1),
        unread(final(u)) == past_range(unread(old(u)), len - 1),
{
    u.choose_index(len).expect("drawing an index always succeeds")
}

/// `Unstructured::ratio` on `u8`: whether a number drawn from
/// `1..=denominator` is at most `numerator`. It panics unless
/// `0 < numerator <= denominator`, and otherwise always succeeds.
#[verifier::external_body]
pub(crate) fn draw_ratio(u: &mut Unstructured<'_>, numerator: u8, denominator: u8) -> (r: bool)
    requires
        0 < numerator <= denominator,
    ensures
        r == (in_range(unread(old(u)), 1, denominator as int) <= numerator),
        unread(final(u)) == past_range(unread(old(u)), denominator - 1),
{
    u.ratio(numerator, denominator).expect("drawing a ratio always succeeds")
}

/// `Unstructured::fill_buffer`: the next `n` bytes, with zeros past the end.
/// It always succeeds.
#[verifier::external_body]
pub(crate) fn draw_filled(u: &mut Unstructured<'_>, n: usize) -> (r: Vec<u8>)
    ensures
        r@ == padded(unread(old(u)), n as nat),
        unread(final(u)) == rest(unread(old(u)), n as nat),
{
    let mut bytes = vec![0u8; n];
    u.fill_buffer(&mut bytes).expect("filling a buffer always succeeds");
    bytes
}

/// `Unstructured::arbitrary_len` for bytes: how many bytes to draw next, a
/// number that is read off the end of the bytes. It always succeeds, and never
/// asks for more than are left.
#[verifier::external_body]
pub(crate) fn draw_len(u: &mut Unstructured<'_>) -> (r: usize)
    ensures
        r == drawn_len(unread(old(u))),
        unread(final(u)) == past_len(unread(old(u))),
{
    u.arbitrary_len::<u8>().expect("drawing a length always succeeds")
}

/// `Unstructured::bytes`: exactly the next `n` bytes. It fails, and takes
/// nothing, when there are fewer.
#[verifier::external_body]
pub(crate) fn draw_bytes(u: &mut Unstructured<'_>, n: usize) -> (r: Result<Vec<u8>, NotEnoughData>)
    ensures
        r is Ok <==> n <= unread(old(u)).len(),
        r matches Ok(bytes) ==> bytes@ == unread(old(u)).subrange(0, n as int) && unread(final(u))
            == rest(unread(old(u)), n as nat),
        r is Err ==> unread(final(u)) == unread(old(u)),
{
    match u.bytes(n) {
        Ok(bytes) => Ok(bytes.to_vec()),
        Err(_) => Err(NotEnoughData),
    }
}

/// `Unstructured::take_rest`: every byte not handed out yet.
#[verifier::external_body]
pub(crate) fn draw_rest(u: Unstructured<'_>) -> (r: Vec<u8>)
    ensures
        r@ == unread(&u),
{
    u.take_rest().to_vec()
}

/// A length, then that many bytes.
pub(crate) fn draw_sized(u: &mut Unstructured<'_>) -> (r: Vec<u8>)
    ensures
        r@ == sized(unread(old(u))),
        unread(final(u)) == past_sized(unread(old(u))),
{
    let len = draw_len(u);
    match draw_bytes(u, len) {
        Ok(bytes) => bytes,
        Err(_) => Vec::new(),
    }
}

/// The bytes drawn as a length and then that many.
pub open spec fn sized(s: Seq<u8>) -> Seq<u8> {
    past_len(s).subrange(0, drawn_len(s))
}

/// What drawing a length and then that many bytes leaves of `s`.
pub open spec fn past_sized(s: Seq<u8>) -> Seq<u8> {
    rest(past_len(s), drawn_len(s) as nat)
}

/// A length never asks for more bytes than are left.
pub proof fn law_a_drawn_length_is_always_there(s: Seq<u8>)
    ensures
        0 <= drawn_len(s) <= past_len(s).len(),
{
}

/// What is written first is drawn first, whole, and drawing it leaves exactly
/// what was written behind it. Past the end there are only zeros to draw.
pub proof fn law_what_is_written_first_is_drawn_first(front: Seq<u8>, more: Seq<u8>, n: nat)
    ensures
        padded(front + more, front.len()) =~= front,
        rest(front + more, front.len()) =~= more,
        front.len() == 1 ==> odd(front + more) == (front[0] % 2 == 1),
        padded(Seq::empty(), n) =~= Seq::new(n, |i: int| 0u8),
        rest(Seq::empty(), n) =~= Seq::empty(),
        n > front.len() ==> padded(front, n).take(front.len() as int) =~= front && rest(front, n)
            =~= Seq::empty() && forall|i: int|
            front.len() <= i < n ==> #[trigger] padded(front, n)[i] == 0,
{
}

/// A tag is one byte, as long as there are at most 256 kinds of it: the byte
/// itself, if it names a kind.
pub proof fn law_a_tag_is_one_byte(tag: u8, kinds: int, more: Seq<u8>)
    requires
        2 <= kinds <= 256,
    ensures
        in_range(seq![tag] + more, 0, kinds - 1) == tag as int % kinds,
        past_range(seq![tag] + more, kinds - 1) =~= more,
        in_range(Seq::empty(), 0, kinds - 1) == 0,
{
    reveal_with_fuel(range_width, 3);
    reveal_with_fuel(be, 2);
    let s = seq![tag] + more;
    assert(range_width(kinds - 1) == 1) by {
        assert((kinds - 1) / 256 == 0);
    }
    assert(s.subrange(0, 1) =~= seq![tag]);
    assert(seq![tag].drop_last() =~= Seq::<u8>::empty());
    assert(Seq::<u8>::empty().subrange(0, 0) =~= Seq::<u8>::empty());
    assert(be(Seq::<u8>::empty()) == 0);
    assert(range_used(Seq::<u8>::empty(), kinds - 1) == 0);
    assert(0int % kinds == 0) by {
        vstd::arithmetic::div_mod::lemma_small_mod(0, kinds as nat);
    }
}

/// A draw from a range stays in the range, whatever the bytes are, and takes no
/// more of them than it takes to write the range's span down.
pub proof fn law_a_draw_stays_in_its_range(s: Seq<u8>, lo: int, hi: int)
    requires
        lo <= hi,
    ensures
        lo <= in_range(s, lo, hi) <= hi,
        past_range(s, hi - lo).len() + range_used(s, hi - lo) == s.len(),
        range_used(s, hi - lo) <= range_width(hi - lo),
        hi == lo ==> past_range(s, 0) =~= s,
{
}

/// An array that is drawn last is the next bytes but for its last one, which is
/// the byte behind them.
pub proof fn law_an_array_drawn_last_ends_with_the_byte_behind_it(front: Seq<u8>, last: u8, next: u8)
    ensures
        ({
            let s = front + seq![last, next];
            let n = (front.len() + 1) as nat;
            last_array(s, n) =~= front + seq![next]
        }),
{
}

/// Bytes are drawn as a vector by one odd byte in front of each, and an even
/// byte behind the last.
pub proof fn law_a_vector_is_drawn_byte_by_byte(first: u8, s: Seq<u8>)
    ensures
        drawn_vec(seq![1u8, first] + s) =~= seq![first] + drawn_vec(s),
        past_vec(seq![1u8, first] + s) == past_vec(s),
        drawn_vec(seq![0u8] + s) =~= Seq::empty(),
        past_vec(seq![0u8] + s) =~= s,
        drawn_vec(Seq::empty()) =~= Seq::empty(),
{
    let t = seq![1u8, first] + s;
    assert(rest(t, 2) =~= s);
    assert(rest(t, 1) =~= seq![first] + s);
    assert(rest(seq![0u8] + s, 1) =~= s);
}

/// What is drawn by its length is a front of what is left once the length is
/// taken off the end, and drawing it leaves the rest of that.
pub proof fn law_what_is_drawn_by_length_is_a_front(s: Seq<u8>)
    ensures
        sized(s) + past_sized(s) =~= past_len(s),
        past_len(s) =~= s.take(s.len() - len_width(s.len())),
        sized(s).len() == drawn_len(s),
        s.len() == 0 ==> len_width(s.len()) == 0,
        2 <= s.len() <= 0x100 ==> past_len(s).len() == s.len() - 1,
        0x101 <= s.len() <= 0x1_0001 ==> past_len(s).len() == s.len() - 2,
{
    law_a_drawn_length_is_always_there(s);
}

} // verus!
