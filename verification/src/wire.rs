//! Fixed-width little-endian fields inside a byte buffer.
//!
//! Reading is stated by offset (`u64_at(b, at)` is the integer stored in the
//! eight bytes that start at `at`); writing is stated by the bytes that are
//! appended.

use crate::common::{zeros, Id};
use vstd::arithmetic::div_mod::{lemma_div_denominator, lemma_fundamental_div_mod_converse};
use vstd::prelude::*;

verus! {

/// The 16-bit integer stored little-endian at `at`.
pub open spec fn u16_at(b: Seq<u8>, at: int) -> u16 {
    (b[at] + 0x100 * b[at + 1]) as u16
}

/// The 32-bit integer stored little-endian at `at`.
pub open spec fn u32_at(b: Seq<u8>, at: int) -> u32 {
    (b[at] + 0x100 * b[at + 1] + 0x1_0000 * b[at + 2] + 0x100_0000 * b[at + 3]) as u32
}

/// The 64-bit integer stored little-endian at `at`.
pub open spec fn u64_at(b: Seq<u8>, at: int) -> u64 {
    (b[at] + 0x100 * b[at + 1] + 0x1_0000 * b[at + 2] + 0x100_0000 * b[at + 3] + 0x1_0000_0000
        * b[at + 4] + 0x100_0000_0000 * b[at + 5] + 0x1_0000_0000_0000 * b[at + 6]
        + 0x100_0000_0000_0000 * b[at + 7]) as u64
}

/// The 32 bytes that start at `at`.
pub open spec fn id_at(b: Seq<u8>, at: int) -> Seq<u8> {
    b.subrange(at, at + 32)
}

/// The one byte of `x`.
pub open spec fn u8_bytes(x: u8) -> Seq<u8> {
    seq![x]
}

/// The two bytes of `x`, least significant first.
pub open spec fn u16_le_bytes(x: u16) -> Seq<u8> {
    seq![(x % 0x100) as u8, (x / 0x100) as u8]
}

/// The four bytes of `x`, least significant first.
pub open spec fn u32_le_bytes(x: u32) -> Seq<u8> {
    seq![
        (x % 0x100) as u8,
        (x / 0x100 % 0x100) as u8,
        (x / 0x1_0000 % 0x100) as u8,
        (x / 0x100_0000) as u8,
    ]
}

/// The eight bytes of `x`, least significant first.
pub open spec fn u64_le_bytes(x: u64) -> Seq<u8> {
    seq![
        (x % 0x100) as u8,
        (x / 0x100 % 0x100) as u8,
        (x / 0x1_0000 % 0x100) as u8,
        (x / 0x100_0000 % 0x100) as u8,
        (x / 0x1_0000_0000 % 0x100) as u8,
        (x / 0x100_0000_0000 % 0x100) as u8,
        (x / 0x1_0000_0000_0000 % 0x100) as u8,
        (x / 0x100_0000_0000_0000) as u8,
    ]
}

/// The base-256 digits of an integer below 2^64 are found by division.
proof fn lemma_digits_of_sum(x: int, d: Seq<int>)
    requires
        d.len() == 8,
        forall|i: int| 0 <= i < 8 ==> 0 <= #[trigger] d[i] < 0x100,
        x == d[0] + 0x100 * d[1] + 0x1_0000 * d[2] + 0x100_0000 * d[3] + 0x1_0000_0000 * d[4]
            + 0x100_0000_0000 * d[5] + 0x1_0000_0000_0000 * d[6] + 0x100_0000_0000_0000 * d[7],
    ensures
        x % 0x100 == d[0],
        x / 0x100 % 0x100 == d[1],
        x / 0x1_0000 % 0x100 == d[2],
        x / 0x100_0000 % 0x100 == d[3],
        x / 0x1_0000_0000 % 0x100 == d[4],
        x / 0x100_0000_0000 % 0x100 == d[5],
        x / 0x1_0000_0000_0000 % 0x100 == d[6],
        x / 0x100_0000_0000_0000 == d[7],
{
    let h7 = d[7];
    let h6 = d[6] + 0x100 * h7;
    let h5 = d[5] + 0x100 * h6;
    let h4 = d[4] + 0x100 * h5;
    let h3 = d[3] + 0x100 * h4;
    let h2 = d[2] + 0x100 * h3;
    let h1 = d[1] + 0x100 * h2;
    assert(x == d[0] + 0x100 * h1);
    let l1 = d[0];
    let l2 = l1 + 0x100 * d[1];
    let l3 = l2 + 0x1_0000 * d[2];
    let l4 = l3 + 0x100_0000 * d[3];
    let l5 = l4 + 0x1_0000_0000 * d[4];
    let l6 = l5 + 0x100_0000_0000 * d[5];
    let l7 = l6 + 0x1_0000_0000_0000 * d[6];
    lemma_fundamental_div_mod_converse(x, 0x100, h1, l1);
    lemma_fundamental_div_mod_converse(x, 0x1_0000, h2, l2);
    lemma_fundamental_div_mod_converse(x, 0x100_0000, h3, l3);
    lemma_fundamental_div_mod_converse(x, 0x1_0000_0000, h4, l4);
    lemma_fundamental_div_mod_converse(x, 0x100_0000_0000, h5, l5);
    lemma_fundamental_div_mod_converse(x, 0x1_0000_0000_0000, h6, l6);
    lemma_fundamental_div_mod_converse(x, 0x100_0000_0000_0000, h7, l7);
    lemma_fundamental_div_mod_converse(h1, 0x100, h2, d[1]);
    lemma_fundamental_div_mod_converse(h2, 0x100, h3, d[2]);
    lemma_fundamental_div_mod_converse(h3, 0x100, h4, d[3]);
    lemma_fundamental_div_mod_converse(h4, 0x100, h5, d[4]);
    lemma_fundamental_div_mod_converse(h5, 0x100, h6, d[5]);
    lemma_fundamental_div_mod_converse(h6, 0x100, h7, d[6]);
}

/// An integer below 2^64 is the sum of its base-256 digits.
proof fn lemma_sum_of_digits(x: int)
    requires
        0 <= x < 0x1_0000_0000_0000_0000,
    ensures
        x == x % 0x100 + 0x100 * (x / 0x100 % 0x100) + 0x1_0000 * (x / 0x1_0000 % 0x100)
            + 0x100_0000 * (x / 0x100_0000 % 0x100) + 0x1_0000_0000 * (x / 0x1_0000_0000 % 0x100)
            + 0x100_0000_0000 * (x / 0x100_0000_0000 % 0x100) + 0x1_0000_0000_0000 * (x
            / 0x1_0000_0000_0000 % 0x100) + 0x100_0000_0000_0000 * (x / 0x100_0000_0000_0000),
{
    let q1 = x / 0x100;
    let q2 = x / 0x1_0000;
    let q3 = x / 0x100_0000;
    let q4 = x / 0x1_0000_0000;
    let q5 = x / 0x100_0000_0000;
    let q6 = x / 0x1_0000_0000_0000;
    let q7 = x / 0x100_0000_0000_0000;
    lemma_div_denominator(x, 0x100, 0x100);
    lemma_div_denominator(x, 0x1_0000, 0x100);
    lemma_div_denominator(x, 0x100_0000, 0x100);
    lemma_div_denominator(x, 0x1_0000_0000, 0x100);
    lemma_div_denominator(x, 0x100_0000_0000, 0x100);
    lemma_div_denominator(x, 0x1_0000_0000_0000, 0x100);
    assert(q2 == q1 / 0x100);
    assert(q3 == q2 / 0x100);
    assert(q4 == q3 / 0x100);
    assert(q5 == q4 / 0x100);
    assert(q6 == q5 / 0x100);
    assert(q7 == q6 / 0x100);
    assert(x == x % 0x100 + 0x100 * q1);
    assert(q1 == q1 % 0x100 + 0x100 * q2);
    assert(q2 == q2 % 0x100 + 0x100 * q3);
    assert(q3 == q3 % 0x100 + 0x100 * q4);
    assert(q4 == q4 % 0x100 + 0x100 * q5);
    assert(q5 == q5 % 0x100 + 0x100 * q6);
    assert(q6 == q6 % 0x100 + 0x100 * q7);
}

/// Reading back what `u16_le_bytes` wrote gives the integer.
pub proof fn lemma_u16_read_written(b: Seq<u8>, at: int, x: u16)
    requires
        0 <= at,
        at + 2 <= b.len(),
        b.subrange(at, at + 2) == u16_le_bytes(x),
    ensures
        u16_at(b, at) == x,
{
    let w = b.subrange(at, at + 2);
    assert(b[at] == w[0] && b[at + 1] == w[1]);
    lemma_sum_of_digits(x as int);
}

/// Writing what was read at `at` gives the two bytes that stand there.
pub proof fn lemma_u16_written_read(b: Seq<u8>, at: int)
    requires
        0 <= at,
        at + 2 <= b.len(),
    ensures
        u16_le_bytes(u16_at(b, at)) == b.subrange(at, at + 2),
{
    let d = Seq::new(8, |i: int| if i < 2 { b[at + i] as int } else { 0 });
    let x = d[0] + 0x100 * d[1];
    lemma_digits_of_sum(x, d);
    assert(u16_at(b, at) == x);
    assert(u16_le_bytes(u16_at(b, at)) =~= b.subrange(at, at + 2));
}

/// Reading back what `u32_le_bytes` wrote gives the integer.
pub proof fn lemma_u32_read_written(b: Seq<u8>, at: int, x: u32)
    requires
        0 <= at,
        at + 4 <= b.len(),
        b.subrange(at, at + 4) == u32_le_bytes(x),
    ensures
        u32_at(b, at) == x,
{
    let w = b.subrange(at, at + 4);
    assert(b[at] == w[0] && b[at + 1] == w[1] && b[at + 2] == w[2] && b[at + 3] == w[3]);
    lemma_sum_of_digits(x as int);
}

/// Writing what was read at `at` gives the four bytes that stand there.
pub proof fn lemma_u32_written_read(b: Seq<u8>, at: int)
    requires
        0 <= at,
        at + 4 <= b.len(),
    ensures
        u32_le_bytes(u32_at(b, at)) == b.subrange(at, at + 4),
{
    let d = Seq::new(8, |i: int| if i < 4 { b[at + i] as int } else { 0 });
    let x = d[0] + 0x100 * d[1] + 0x1_0000 * d[2] + 0x100_0000 * d[3];
    lemma_digits_of_sum(x, d);
    assert(u32_at(b, at) == x);
    assert(u32_le_bytes(u32_at(b, at)) =~= b.subrange(at, at + 4));
}

/// Reading back what `u64_le_bytes` wrote gives the integer.
pub proof fn lemma_u64_read_written(b: Seq<u8>, at: int, x: u64)
    requires
        0 <= at,
        at + 8 <= b.len(),
        b.subrange(at, at + 8) == u64_le_bytes(x),
    ensures
        u64_at(b, at) == x,
{
    let w = b.subrange(at, at + 8);
    assert(b[at] == w[0] && b[at + 1] == w[1] && b[at + 2] == w[2] && b[at + 3] == w[3]);
    assert(b[at + 4] == w[4] && b[at + 5] == w[5] && b[at + 6] == w[6] && b[at + 7] == w[7]);
    lemma_sum_of_digits(x as int);
}

/// Writing what was read at `at` gives the eight bytes that stand there.
pub proof fn lemma_u64_written_read(b: Seq<u8>, at: int)
    requires
        0 <= at,
        at + 8 <= b.len(),
    ensures
        u64_le_bytes(u64_at(b, at)) == b.subrange(at, at + 8),
{
    let d = Seq::new(8, |i: int| b[at + i] as int);
    let x = d[0] + 0x100 * d[1] + 0x1_0000 * d[2] + 0x100_0000 * d[3] + 0x1_0000_0000 * d[4]
        + 0x100_0000_0000 * d[5] + 0x1_0000_0000_0000 * d[6] + 0x100_0000_0000_0000 * d[7];
    lemma_digits_of_sum(x, d);
    assert(u64_at(b, at) == x);
    assert(u64_le_bytes(u64_at(b, at)) =~= b.subrange(at, at + 8));
}

/// Where a stretch of a buffer is `head` followed by `seg`, `head` stands at
/// its start and `seg` right behind.
pub proof fn lemma_split(b: Seq<u8>, from: int, to: int, head: Seq<u8>, seg: Seq<u8>)
    requires
        0 <= from <= to <= b.len(),
        b.subrange(from, to) == head + seg,
    ensures
        to - from == head.len() + seg.len(),
        b.subrange(from, from + head.len()) == head,
        b.subrange(from + head.len(), to) == seg,
{
    let joined = b.subrange(from, to);
    let mid = head.len() as int;
    assert(joined.len() == to - from);
    assert(b.subrange(from, from + mid) =~= joined.subrange(0, mid));
    assert(joined.subrange(0, mid) =~= head);
    assert(b.subrange(from + mid, to) =~= joined.subrange(mid, to - from));
    assert(joined.subrange(mid, to - from) =~= seg);
}

/// Two stretches of a buffer that follow each other make one stretch.
pub proof fn lemma_join(b: Seq<u8>, from: int, mid: int, to: int)
    requires
        0 <= from <= mid <= to <= b.len(),
    ensures
        b.subrange(from, to) == b.subrange(from, mid) + b.subrange(mid, to),
{
    assert(b.subrange(from, to) =~= b.subrange(from, mid) + b.subrange(mid, to));
}

/// The byte at `at`, as a stretch of one byte.
pub proof fn lemma_byte(b: Seq<u8>, at: int)
    requires
        0 <= at < b.len(),
    ensures
        b.subrange(at, at + 1) == u8_bytes(b[at]),
{
    assert(b.subrange(at, at + 1) =~= u8_bytes(b[at]));
}

/// Where `x` stands in a buffer as a stretch of one byte, it is the byte
/// at that place.
pub proof fn lemma_byte_read(b: Seq<u8>, at: int, x: u8)
    requires
        0 <= at < b.len(),
        b.subrange(at, at + 1) == u8_bytes(x),
    ensures
        b[at] == x,
{
    lemma_byte(b, at);
    assert(u8_bytes(b[at])[0] == u8_bytes(x)[0]);
}

/// Every chunk has `k` bytes.
pub open spec fn each_has_len(chunks: Seq<Seq<u8>>, k: nat) -> bool {
    forall|i: int| 0 <= i < chunks.len() ==> (#[trigger] chunks[i]).len() == k
}

/// Chunks of `k` bytes each, laid end to end, take `k` bytes per chunk.
pub proof fn lemma_flatten_len(chunks: Seq<Seq<u8>>, k: nat)
    requires
        each_has_len(chunks, k),
    ensures
        chunks.flatten().len() == chunks.len() * k,
    decreases chunks.len(),
{
    if chunks.len() > 0 {
        let front = chunks.drop_last();
        lemma_flatten_len(front, k);
        front.lemma_flatten_push(chunks.last());
        assert(chunks =~= front.push(chunks.last()));
        assert(front.len() * k + k == chunks.len() * k) by (nonlinear_arith)
            requires
                front.len() + 1 == chunks.len(),
        ;
    } else {
        assert(chunks.len() * k == 0) by (nonlinear_arith)
            requires
                chunks.len() == 0,
        ;
    }
}

/// Chunk `i` of chunks laid end to end stands at offset `i * k`.
pub proof fn lemma_flatten_chunk(chunks: Seq<Seq<u8>>, k: nat, i: int)
    requires
        each_has_len(chunks, k),
        0 <= i < chunks.len(),
    ensures
        0 <= i * k,
        i * k + k <= chunks.flatten().len(),
        chunks.flatten().subrange(i * k, i * k + k) == chunks[i],
    decreases chunks.len(),
{
    let front = chunks.drop_last();
    lemma_flatten_len(front, k);
    lemma_flatten_len(chunks, k);
    front.lemma_flatten_push(chunks.last());
    assert(chunks =~= front.push(chunks.last()));
    assert(0 <= i * k && i * k + k <= chunks.len() * k && (i < front.len() ==> i * k + k
        <= front.len() * k) && (i == front.len() ==> i * k == front.len() * k))
        by (nonlinear_arith)
        requires
            0 <= i < chunks.len(),
            front.len() + 1 == chunks.len(),
    ;
    if i < front.len() {
        lemma_flatten_chunk(front, k, i);
        assert(chunks.flatten().subrange(i * k, i * k + k) =~= front.flatten().subrange(
            i * k,
            i * k + k,
        ));
    } else {
        assert(chunks.flatten().subrange(i * k, i * k + k) =~= chunks.last());
    }
}

/// Where chunks of `k` bytes each stand end to end in a buffer from `at`,
/// chunk `i` stands at `at + i * k`.
pub proof fn lemma_chunk_in_buffer(b: Seq<u8>, at: int, chunks: Seq<Seq<u8>>, k: nat, i: int)
    requires
        each_has_len(chunks, k),
        0 <= at,
        at + chunks.len() * k <= b.len(),
        b.subrange(at, at + chunks.len() * k) == chunks.flatten(),
        0 <= i < chunks.len(),
    ensures
        0 <= i * k,
        at + i * k + k <= b.len(),
        b.subrange(at + i * k, at + i * k + k) == chunks[i],
{
    lemma_flatten_chunk(chunks, k, i);
    lemma_flatten_len(chunks, k);
    let whole = b.subrange(at, at + chunks.len() * k);
    assert(b.subrange(at + i * k, at + i * k + k) =~= whole.subrange(i * k, i * k + k));
}

/// Consecutive slices of `k` bytes of a buffer, laid end to end, are the
/// part of the buffer that they cover.
pub proof fn lemma_flatten_slices(b: Seq<u8>, at: int, k: nat, chunks: Seq<Seq<u8>>)
    requires
        0 <= at,
        at + chunks.len() * k <= b.len(),
        forall|i: int|
            0 <= i < chunks.len() ==> #[trigger] chunks[i] == b.subrange(
                at + i * k,
                at + i * k + k,
            ),
    ensures
        chunks.flatten() == b.subrange(at, at + chunks.len() * k),
    decreases chunks.len(),
{
    if chunks.len() == 0 {
        assert(chunks.len() * k == 0) by (nonlinear_arith)
            requires
                chunks.len() == 0,
        ;
        assert(chunks.flatten() =~= b.subrange(at, at + chunks.len() * k));
    } else {
        let front = chunks.drop_last();
        let n = front.len() as int;
        assert(n * k + k == chunks.len() * k && 0 <= n * k) by (nonlinear_arith)
            requires
                n + 1 == chunks.len(),
                0 <= n,
        ;
        assert forall|i: int| 0 <= i < front.len() implies #[trigger] front[i] == b.subrange(
            at + i * k,
            at + i * k + k,
        ) by {
            assert(front[i] == chunks[i]);
        }
        lemma_flatten_slices(b, at, k, front);
        front.lemma_flatten_push(chunks.last());
        assert(chunks =~= front.push(chunks.last()));
        assert(chunks.last() == chunks[n]);
        assert(chunks.flatten() =~= b.subrange(at, at + chunks.len() * k));
    }
}

/// Reads the 16-bit integer at `at`.
pub(crate) fn read_u16(b: &[u8], at: usize) -> (x: u16)
    requires
        at + 2 <= b.len(),
    ensures
        x == u16_at(b@, at as int),
{
    let d0: u16 = b[at] as u16;
    let d1: u16 = b[at + 1] as u16;
    d0 + 0x100 * d1
}

/// Reads the 32-bit integer at `at`.
pub(crate) fn read_u32(b: &[u8], at: usize) -> (x: u32)
    requires
        at + 4 <= b.len(),
    ensures
        x == u32_at(b@, at as int),
{
    let d0: u32 = b[at] as u32;
    let d1: u32 = b[at + 1] as u32;
    let d2: u32 = b[at + 2] as u32;
    let d3: u32 = b[at + 3] as u32;
    d0 + 0x100 * d1 + 0x1_0000 * d2 + 0x100_0000 * d3
}

/// Reads the 64-bit integer at `at`.
pub(crate) fn read_u64(b: &[u8], at: usize) -> (x: u64)
    requires
        at + 8 <= b.len(),
    ensures
        x == u64_at(b@, at as int),
{
    let d0: u64 = b[at] as u64;
    let d1: u64 = b[at + 1] as u64;
    let d2: u64 = b[at + 2] as u64;
    let d3: u64 = b[at + 3] as u64;
    let d4: u64 = b[at + 4] as u64;
    let d5: u64 = b[at + 5] as u64;
    let d6: u64 = b[at + 6] as u64;
    let d7: u64 = b[at + 7] as u64;
    d0 + 0x100 * d1 + 0x1_0000 * d2 + 0x100_0000 * d3 + 0x1_0000_0000 * d4 + 0x100_0000_0000 * d5
        + 0x1_0000_0000_0000 * d6 + 0x100_0000_0000_0000 * d7
}

/// Reads the identifier at `at`.
pub(crate) fn read_id(b: &[u8], at: usize) -> (id: Id)
    requires
        at + 32 <= b.len(),
    ensures
        id@ == id_at(b@, at as int),
{
    let len: usize = b.len();
    let mut data = [0u8; 32];
    let mut i: usize = 0;
    while i < 32
        invariant
            i <= 32,
            at + 32 <= len == b@.len(),
            forall|j: int| 0 <= j < i ==> data[j] == b@[at + j],
        decreases 32 - i,
    {
        data[i] = b[at + i];
        i += 1;
    }
    let id = Id { data };
    assert(id@ =~= id_at(b@, at as int));
    id
}

/// Appends the byte `x`.
pub(crate) fn write_u8(out: &mut Vec<u8>, x: u8)
    ensures
        final(out)@ == old(out)@ + u8_bytes(x),
{
    out.push(x);
    assert(out@ =~= old(out)@ + u8_bytes(x));
}

/// Appends the two bytes of `x`.
pub(crate) fn write_u16(out: &mut Vec<u8>, x: u16)
    ensures
        final(out)@ == old(out)@ + u16_le_bytes(x),
{
    out.push((x % 0x100) as u8);
    out.push((x / 0x100) as u8);
    assert(out@ =~= old(out)@ + u16_le_bytes(x));
}

/// Appends the four bytes of `x`.
pub(crate) fn write_u32(out: &mut Vec<u8>, x: u32)
    ensures
        final(out)@ == old(out)@ + u32_le_bytes(x),
{
    out.push((x % 0x100) as u8);
    out.push((x / 0x100 % 0x100) as u8);
    out.push((x / 0x1_0000 % 0x100) as u8);
    out.push((x / 0x100_0000) as u8);
    assert(out@ =~= old(out)@ + u32_le_bytes(x));
}

/// Appends the eight bytes of `x`.
pub(crate) fn write_u64(out: &mut Vec<u8>, x: u64)
    ensures
        final(out)@ == old(out)@ + u64_le_bytes(x),
{
    out.push((x % 0x100) as u8);
    out.push((x / 0x100 % 0x100) as u8);
    out.push((x / 0x1_0000 % 0x100) as u8);
    out.push((x / 0x100_0000 % 0x100) as u8);
    out.push((x / 0x1_0000_0000 % 0x100) as u8);
    out.push((x / 0x100_0000_0000 % 0x100) as u8);
    out.push((x / 0x1_0000_0000_0000 % 0x100) as u8);
    out.push((x / 0x100_0000_0000_0000) as u8);
    assert(out@ =~= old(out)@ + u64_le_bytes(x));
}

/// Appends the 32 bytes of `id`.
pub(crate) fn write_id(out: &mut Vec<u8>, id: &Id)
    ensures
        final(out)@ == old(out)@ + id@,
{
    let mut i: usize = 0;
    while i < 32
        invariant
            i <= 32,
            out@ == old(out)@ + id@.take(i as int),
        decreases 32 - i,
    {
        out.push(id.data[i]);
        assert(out@ =~= old(out)@ + id@.take(i + 1));
        i += 1;
    }
    assert(id@.take(32) =~= id@);
}

/// Appends `n` zero bytes.
pub(crate) fn write_zeros(out: &mut Vec<u8>, n: usize)
    ensures
        final(out)@ == old(out)@ + zeros(n as nat),
{
    let mut i: usize = 0;
    while i < n
        invariant
            i <= n,
            out@ == old(out)@ + zeros(i as nat),
        decreases n - i,
    {
        out.push(0u8);
        assert(out@ =~= old(out)@ + zeros((i + 1) as nat));
        i += 1;
    }
}

} // verus!
