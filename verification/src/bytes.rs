//! Byte sequences: integers in either byte order, writing one sequence over
//! part of another, and the first place two of them differ.
use vstd::prelude::*;

verus! {

/// The value of a little-endian byte sequence.
pub open spec fn le(s: Seq<u8>) -> nat
    decreases s.len(),
{
    if s.len() == 0 {
        0
    } else {
        (s[0] as nat) + 256 * le(s.drop_first())
    }
}

/// The value of a big-endian byte sequence.
pub open spec fn be(s: Seq<u8>) -> nat
    decreases s.len(),
{
    if s.len() == 0 {
        0
    } else {
        256 * be(s.drop_last()) + (s.last() as nat)
    }
}

/// The low `n` bytes of `v`, least significant first.
pub open spec fn le_bytes(v: nat, n: nat) -> Seq<u8>
    decreases n,
{
    if n == 0 {
        Seq::empty()
    } else {
        seq![(v % 256) as u8] + le_bytes(v / 256, (n - 1) as nat)
    }
}

/// The low `n` bytes of `v`, most significant first.
pub open spec fn be_bytes(v: nat, n: nat) -> Seq<u8>
    decreases n,
{
    if n == 0 {
        Seq::empty()
    } else {
        be_bytes(v / 256, (n - 1) as nat).push((v % 256) as u8)
    }
}

/// `s` with the bytes from `at` on replaced by `bytes`.
pub open spec fn overlay(s: Seq<u8>, at: int, bytes: Seq<u8>) -> Seq<u8> {
    Seq::new(
        s.len(),
        |i: int|
            if at <= i < at + bytes.len() {
                bytes[i - at]
            } else {
                s[i]
            },
    )
}

/// Both byte sequences of one integer have the width they were asked for.
pub broadcast proof fn lemma_le_bytes_len(v: nat, n: nat)
    ensures
        #[trigger] le_bytes(v, n).len() == n,
    decreases n,
{
    if n > 0 {
        lemma_le_bytes_len(v / 256, (n - 1) as nat);
    }
}

/// A big-endian byte sequence has the width it was asked for.
pub broadcast proof fn lemma_be_bytes_len(v: nat, n: nat)
    ensures
        #[trigger] be_bytes(v, n).len() == n,
    decreases n,
{
    if n > 0 {
        lemma_be_bytes_len(v / 256, (n - 1) as nat);
    }
}

/// 256 to the power `n`.
pub open spec fn pow256(n: nat) -> nat
    decreases n,
{
    if n == 0 {
        1
    } else {
        256 * pow256((n - 1) as nat)
    }
}

/// Reading back a little-endian integer gives the integer that was written,
/// as long as it fits the width.
pub proof fn law_le_bytes_round_trip(v: nat, n: nat)
    requires
        v < pow256(n),
    ensures
        le(le_bytes(v, n)) == v,
    decreases n,
{
    broadcast use lemma_le_bytes_len;

    if n > 0 {
        let tail = le_bytes(v / 256, (n - 1) as nat);
        assert(v / 256 < pow256((n - 1) as nat));
        law_le_bytes_round_trip(v / 256, (n - 1) as nat);
        assert(le_bytes(v, n).drop_first() =~= tail);
        assert(le_bytes(v, n)[0] == (v % 256) as u8);
    }
}

/// Reading back a big-endian integer gives the integer that was written, as
/// long as it fits the width.
pub proof fn law_be_bytes_round_trip(v: nat, n: nat)
    requires
        v < pow256(n),
    ensures
        be(be_bytes(v, n)) == v,
    decreases n,
{
    broadcast use lemma_be_bytes_len;

    if n > 0 {
        let head = be_bytes(v / 256, (n - 1) as nat);
        assert(v / 256 < pow256((n - 1) as nat));
        law_be_bytes_round_trip(v / 256, (n - 1) as nat);
        assert(be_bytes(v, n).drop_last() =~= head);
        assert(be_bytes(v, n).last() == (v % 256) as u8);
    }
}

/// Append `v` to `out`, least significant byte first, in `n` bytes.
pub fn push_le(out: &mut Vec<u8>, v: u64, n: usize)
    requires
        n <= 8,
    ensures
        final(out)@ == old(out)@ + le_bytes(v as nat, n as nat),
{
    let mut left: u64 = v;
    let mut i: usize = 0;
    while i < n
        invariant
            i <= n,
            out@ + le_bytes(left as nat, (n - i) as nat) =~= old(out)@ + le_bytes(
                v as nat,
                n as nat,
            ),
        decreases n - i,
    {
        let ghost before = out@;
        let byte: u8 = (left % 256) as u8;
        out.push(byte);
        proof {
            let tail = le_bytes((left / 256) as nat, (n - i - 1) as nat);
            assert(le_bytes(left as nat, (n - i) as nat) =~= seq![byte] + tail);
            assert(out@ + tail =~= before + (seq![byte] + tail));
        }
        left = left / 256;
        i = i + 1;
    }
    assert(out@ + le_bytes(left as nat, 0) =~= out@);
}

/// Append `v` to `out`, most significant byte first, in `n` bytes.
pub fn push_be(out: &mut Vec<u8>, v: u64, n: usize)
    requires
        n <= 8,
    ensures
        final(out)@ == old(out)@ + be_bytes(v as nat, n as nat),
{
    broadcast use lemma_be_bytes_len;

    let start = out.len();
    let mut filled: usize = 0;
    while filled < n
        invariant
            filled <= n,
            out@ =~= old(out)@ + Seq::new(filled as nat, |i: int| 0u8),
        decreases n - filled,
    {
        out.push(0);
        filled = filled + 1;
    }
    let mut left: u64 = v;
    let mut i: usize = n;
    while i > 0
        invariant
            n <= 8,
            i <= n,
            start == old(out)@.len(),
            out@.len() == start + n,
            out@.subrange(0, start as int) =~= old(out)@,
            be_bytes(left as nat, i as nat) + out@.subrange(start + i, start + n) =~= be_bytes(
                v as nat,
                n as nat,
            ),
        decreases i,
    {
        broadcast use lemma_be_bytes_len;

        let ghost before = out@;
        let byte: u8 = (left % 256) as u8;
        assert(out.len() <= usize::MAX);
        i = i - 1;
        out.set(start + i, byte);
        proof {
            let head = be_bytes((left / 256) as nat, i as nat);
            assert(be_bytes(left as nat, (i + 1) as nat) =~= head.push(byte));
            assert(out@.subrange(start + i, start + n) =~= seq![byte] + before.subrange(
                start + i + 1,
                start + n,
            ));
            assert(head + out@.subrange(start + i, start + n) =~= head.push(byte)
                + before.subrange(start + i + 1, start + n));
        }
        left = left / 256;
    }
    assert(be_bytes(left as nat, 0) + out@.subrange(start + 0, start + n) =~= out@.subrange(
        start as int,
        start + n,
    ));
    assert(out@ =~= old(out)@ + out@.subrange(start as int, start + n));
}

/// The big-endian value of the two bytes at `at`.
pub fn be16_at(frame: &[u8], at: usize) -> (r: u16)
    requires
        at + 2 <= frame@.len(),
    ensures
        r == be(frame@.subrange(at as int, at + 2)),
{
    let high: u16 = frame[at] as u16;
    let low: u16 = frame[at + 1] as u16;
    proof {
        let s = frame@.subrange(at as int, at + 2);
        reveal_with_fuel(be, 3);
        assert(s.drop_last().drop_last() =~= Seq::<u8>::empty());
        assert(s.drop_last().last() == frame@[at as int]);
        assert(s.last() == frame@[at + 1]);
    }
    high * 256 + low
}

/// Write `bytes` into `frame` from `at` on.
pub fn put(frame: &mut [u8], at: usize, bytes: &[u8])
    requires
        at + bytes@.len() <= old(frame)@.len(),
    ensures
        final(frame)@ == overlay(old(frame)@, at as int, bytes@),
{
    let len = frame.len();
    let mut i: usize = 0;
    while i < bytes.len()
        invariant
            i <= bytes@.len(),
            at + bytes@.len() <= old(frame)@.len(),
            len == old(frame)@.len(),
            frame@ =~= overlay(old(frame)@, at as int, bytes@.subrange(0, i as int)),
        decreases bytes@.len() - i,
    {
        frame[at + i] = bytes[i];
        i = i + 1;
    }
    assert(bytes@.subrange(0, i as int) =~= bytes@);
}

/// A copy of `bytes`.
pub fn copied(bytes: &[u8]) -> (r: Vec<u8>)
    ensures
        r@ == bytes@,
{
    let mut out: Vec<u8> = Vec::new();
    out.extend_from_slice(bytes);
    assert(out@ =~= bytes@);
    out
}

/// `n` zero bytes.
pub fn zeros(n: usize) -> (r: Vec<u8>)
    ensures
        r@ == Seq::new(n as nat, |i: int| 0u8),
{
    let mut out: Vec<u8> = Vec::new();
    while out.len() < n
        invariant
            out@.len() <= n,
            forall|i: int| 0 <= i < out@.len() ==> out@[i] == 0u8,
        decreases n - out@.len(),
    {
        out.push(0);
    }
    out
}

/// The smaller of two lengths.
pub open spec fn shorter(a: nat, b: nat) -> nat {
    if a <= b { a } else { b }
}

/// `at` is where `a` and `b` first differ: everything before it agrees, and
/// there the bytes differ or one of the two has ended.
pub open spec fn differ_first_at(a: Seq<u8>, b: Seq<u8>, at: int) -> bool {
    &&& 0 <= at <= shorter(a.len(), b.len())
    &&& a.subrange(0, at) == b.subrange(0, at)
    &&& if at < shorter(a.len(), b.len()) {
        a[at] != b[at]
    } else {
        a.len() != b.len()
    }
}

/// Where two byte sequences first differ, or nothing when they are equal.
pub fn first_difference(a: &[u8], b: &[u8]) -> (r: Option<usize>)
    ensures
        r is None <==> a@ == b@,
        r matches Some(at) ==> differ_first_at(a@, b@, at as int),
{
    let mut at: usize = 0;
    while at < a.len() && at < b.len() && a[at] == b[at]
        invariant
            at <= a@.len(),
            at <= b@.len(),
            a@.subrange(0, at as int) =~= b@.subrange(0, at as int),
        decreases a@.len() - at,
    {
        at = at + 1;
    }
    if at < a.len() || at < b.len() {
        proof {
            if a@ == b@ {
                assert(a@[at as int] == b@[at as int]);
            }
        }
        Some(at)
    } else {
        assert(a@.subrange(0, at as int) =~= a@);
        assert(b@.subrange(0, at as int) =~= b@);
        None
    }
}

/// A number of at most eight bytes reads back from as many little-endian bytes
/// as its type has.
pub proof fn law_le_bytes_fit(v: nat)
    ensures
        v <= u8::MAX ==> le(le_bytes(v, 1)) == v,
        v <= u16::MAX ==> le(le_bytes(v, 2)) == v,
        v <= u32::MAX ==> le(le_bytes(v, 4)) == v,
        v <= u64::MAX ==> le(le_bytes(v, 8)) == v,
{
    reveal_with_fuel(pow256, 9);
    assert(pow256(1) == 0x100);
    assert(pow256(2) == 0x1_0000);
    assert(pow256(4) == 0x1_0000_0000);
    assert(pow256(8) == 0x1_0000_0000_0000_0000);
    if v <= u8::MAX {
        law_le_bytes_round_trip(v, 1);
    }
    if v <= u16::MAX {
        law_le_bytes_round_trip(v, 2);
    }
    if v <= u32::MAX {
        law_le_bytes_round_trip(v, 4);
    }
    if v <= u64::MAX {
        law_le_bytes_round_trip(v, 8);
    }
}

/// The two byte orders are each other's reverse, and the least significant
/// byte comes first in one and last in the other.
pub proof fn law_the_byte_orders_mirror_each_other(v: nat, n: nat, s: Seq<u8>)
    ensures
        n > 0 ==> le_bytes(v, n)[0] == v % 256,
        n > 0 ==> be_bytes(v, n)[n - 1] == v % 256,
        be_bytes(v, n) =~= le_bytes(v, n).reverse(),
        be(s) == le(s.reverse()),
    decreases n + s.len(),
{
    broadcast use {lemma_le_bytes_len, lemma_be_bytes_len};

    if n > 0 {
        law_the_byte_orders_mirror_each_other(v / 256, (n - 1) as nat, Seq::empty());
    }
    if s.len() > 0 {
        law_the_byte_orders_mirror_each_other(0, 0, s.drop_last());
        assert(s.reverse().drop_first() =~= s.drop_last().reverse());
    }
}

/// Writing over part of a sequence changes that part alone, to what was
/// written.
pub proof fn law_an_overlay_changes_its_part_alone(s: Seq<u8>, at: int, bytes: Seq<u8>, i: int)
    requires
        0 <= at,
        at + bytes.len() <= s.len(),
        0 <= i < s.len(),
    ensures
        overlay(s, at, bytes).len() == s.len(),
        overlay(s, at, bytes) =~= s.take(at) + bytes + s.skip(at + bytes.len() as int),
{
}

/// Two sequences first differ where they stop agreeing: one place at most, and
/// one at least unless they are equal.
pub proof fn law_there_is_one_first_difference(a: Seq<u8>, b: Seq<u8>, at: int, other: int)
    requires
        differ_first_at(a, b, at),
    ensures
        a != b,
        forall|i: int| 0 <= i < at ==> i < a.len() && i < b.len() && #[trigger] a[i] == b[i],
        at < a.len() && at < b.len() ==> a[at] != b[at],
        at <= a.len() && at <= b.len() && (at < a.len() || at < b.len()),
        differ_first_at(a, b, other) ==> other == at,
{
    assert forall|i: int| 0 <= i < at implies #[trigger] a[i] == b[i] by {
        assert(a.subrange(0, at)[i] == b.subrange(0, at)[i]);
    }
    if differ_first_at(a, b, other) {
        if other < at {
            assert(a[other] == b[other]);
        } else if at < other {
            assert(a.subrange(0, other)[at] == b.subrange(0, other)[at]);
        }
    }
}

/// The shorter of two lengths is one of them, and no longer than either.
pub proof fn law_the_shorter_is_no_longer_than_either(a: nat, b: nat)
    ensures
        shorter(a, b) <= a,
        shorter(a, b) <= b,
        shorter(a, b) == a || shorter(a, b) == b,
{
}

/// Two byte strings that agree up to some place first differ there exactly if
/// they go on differently: with different bytes, or one of them not at all.
pub proof fn law_strings_first_differ_where_they_part(common: Seq<u8>, a: Seq<u8>, b: Seq<u8>)
    ensures
        differ_first_at(common + a, common + b, common.len() as int) <==> {
            ||| a.len() == 0 && b.len() > 0
            ||| a.len() > 0 && b.len() == 0
            ||| a.len() > 0 && b.len() > 0 && a[0] != b[0]
        },
{
    let n = common.len() as int;
    assert((common + a).subrange(0, n) =~= common);
    assert((common + b).subrange(0, n) =~= common);
    if a.len() > 0 {
        assert((common + a)[n] == a[0]);
    }
    if b.len() > 0 {
        assert((common + b)[n] == b[0]);
    }
}

} // verus!
