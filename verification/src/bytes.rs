//! Integers in a byte buffer: little-endian words of two and four bytes.
use vstd::prelude::*;

verus! {

/// The two bytes at `pos`, read as a little-endian number.
pub open spec fn u16_at(b: Seq<u8>, pos: int) -> int {
    b[pos] as int + 256 * (b[pos + 1] as int)
}

/// The four bytes at `pos`, read as a little-endian number.
pub open spec fn u32_at(b: Seq<u8>, pos: int) -> int {
    b[pos] as int + 256 * (b[pos + 1] as int) + 65536 * (b[pos + 2] as int) + 16777216 * (b[pos
        + 3] as int)
}

/// The two bytes of a number below 65536, low byte first.
pub open spec fn u16_bytes(x: int) -> Seq<u8> {
    seq![(x % 256) as u8, (x / 256) as u8]
}

/// The four bytes of a number below 2^32, low byte first.
pub open spec fn u32_bytes(x: int) -> Seq<u8> {
    seq![
        (x % 256) as u8,
        (x / 256 % 256) as u8,
        (x / 65536 % 256) as u8,
        (x / 16777216) as u8,
    ]
}

pub open spec fn zero_bytes(n: nat) -> Seq<u8> {
    Seq::new(n, |i: int| 0u8)
}

/// Says that the bytes of `b` from `pos` on begin with `part`.
pub open spec fn holds_at(b: Seq<u8>, pos: int, part: Seq<u8>) -> bool {
    &&& 0 <= pos
    &&& pos + part.len() <= b.len()
    &&& b.subrange(pos, pos + part.len()) == part
}

pub proof fn lemma_holds_at_index(b: Seq<u8>, pos: int, part: Seq<u8>, i: int)
    requires
        holds_at(b, pos, part),
        0 <= i < part.len(),
    ensures
        b[pos + i] == part[i],
{
    assert(b.subrange(pos, pos + part.len())[i] == b[pos + i]);
}

/// Where a buffer holds two parts in a row, it holds each of them.
pub proof fn lemma_holds_at_concat(b: Seq<u8>, pos: int, first: Seq<u8>, second: Seq<u8>)
    requires
        holds_at(b, pos, first + second),
    ensures
        holds_at(b, pos, first),
        holds_at(b, pos + first.len(), second),
{
    let whole = first + second;
    assert(b.subrange(pos, pos + first.len()) =~= first) by {
        assert forall|i: int| 0 <= i < first.len() implies b[pos + i] == first[i] by {
            lemma_holds_at_index(b, pos, whole, i);
        }
    }
    assert(b.subrange(pos + first.len(), pos + first.len() + second.len()) =~= second) by {
        assert forall|i: int| 0 <= i < second.len() implies b[pos + first.len() + i]
            == second[i] by {
            lemma_holds_at_index(b, pos, whole, first.len() + i);
        }
    }
}

pub proof fn lemma_u16_at_bytes(b: Seq<u8>, pos: int, x: int)
    requires
        0 <= x < 65536,
        holds_at(b, pos, u16_bytes(x)),
    ensures
        u16_at(b, pos) == x,
{
    lemma_holds_at_index(b, pos, u16_bytes(x), 0);
    lemma_holds_at_index(b, pos, u16_bytes(x), 1);
}

pub proof fn lemma_u32_at_bytes(b: Seq<u8>, pos: int, x: int)
    requires
        0 <= x < 0x1_0000_0000,
        holds_at(b, pos, u32_bytes(x)),
    ensures
        u32_at(b, pos) == x,
{
    lemma_holds_at_index(b, pos, u32_bytes(x), 0);
    lemma_holds_at_index(b, pos, u32_bytes(x), 1);
    lemma_holds_at_index(b, pos, u32_bytes(x), 2);
    lemma_holds_at_index(b, pos, u32_bytes(x), 3);
}

pub fn read_u16(bytes: &[u8], pos: usize) -> (r: u16)
    requires
        pos + 2 <= bytes@.len(),
    ensures
        r == u16_at(bytes@, pos as int),
{
    let lo: u16 = bytes[pos] as u16;
    let hi: u16 = bytes[pos + 1] as u16;
    lo + 256 * hi
}

pub fn read_u32(bytes: &[u8], pos: usize) -> (r: u32)
    requires
        pos + 4 <= bytes@.len(),
    ensures
        r == u32_at(bytes@, pos as int),
{
    let b0: u32 = bytes[pos] as u32;
    let b1: u32 = bytes[pos + 1] as u32;
    let b2: u32 = bytes[pos + 2] as u32;
    let b3: u32 = bytes[pos + 3] as u32;
    b0 + 256 * b1 + 65536 * b2 + 16777216 * b3
}

pub fn push_u16(out: &mut Vec<u8>, x: u16)
    ensures
        final(out)@ == old(out)@ + u16_bytes(x as int),
{
    out.push((x % 256) as u8);
    out.push((x / 256) as u8);
    assert(out@ =~= old(out)@ + u16_bytes(x as int));
}

pub fn push_u32(out: &mut Vec<u8>, x: u32)
    ensures
        final(out)@ == old(out)@ + u32_bytes(x as int),
{
    out.push((x % 256) as u8);
    out.push((x / 256 % 256) as u8);
    out.push((x / 65536 % 256) as u8);
    out.push((x / 16777216) as u8);
    assert(out@ =~= old(out)@ + u32_bytes(x as int));
}

pub fn push_bytes(out: &mut Vec<u8>, src: &[u8])
    ensures
        final(out)@ == old(out)@ + src@,
{
    let mut i: usize = 0;
    while i < src.len()
        invariant
            i <= src.len(),
            out@ == old(out)@ + src@.take(i as int),
        decreases src.len() - i,
    {
        out.push(src[i]);
        assert(src@.take(i + 1) =~= src@.take(i as int).push(src@[i as int]));
        i += 1;
    }
    assert(src@.take(src.len() as int) =~= src@);
}

pub fn push_zero_bytes(out: &mut Vec<u8>, n: usize)
    ensures
        final(out)@ == old(out)@ + zero_bytes(n as nat),
{
    let mut i: usize = 0;
    while i < n
        invariant
            i <= n,
            out@ == old(out)@ + zero_bytes(i as nat),
        decreases n - i,
    {
        out.push(0u8);
        assert(zero_bytes((i + 1) as nat) =~= zero_bytes(i as nat).push(0u8));
        i += 1;
    }
}

/// A copy of the bytes from `start` up to `end`.
pub fn copy_range(bytes: &[u8], start: usize, end: usize) -> (r: Vec<u8>)
    requires
        start <= end <= bytes@.len(),
    ensures
        r@ == bytes@.subrange(start as int, end as int),
{
    let mut out: Vec<u8> = Vec::new();
    let mut i: usize = start;
    while i < end
        invariant
            start <= i <= end <= bytes@.len(),
            out@ == bytes@.subrange(start as int, i as int),
        decreases end - i,
    {
        out.push(bytes[i]);
        assert(bytes@.subrange(start as int, i + 1) =~= bytes@.subrange(start as int, i as int).push(
            bytes@[i as int],
        ));
        i += 1;
    }
    out
}

} // verus!
