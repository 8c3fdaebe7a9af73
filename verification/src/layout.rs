//! Little-endian integers inside byte buffers, as the minifilter lays them out.

use vstd::prelude::*;

verus! {

/// The 16-bit value whose low byte is `b[at]` and whose high byte is `b[at + 1]`.
pub open spec fn le_u16(b: Seq<u8>, at: int) -> int {
    b[at] as int + 0x100 * (b[at + 1] as int)
}

/// The 32-bit value stored low half first at `b[at..at + 4]`.
pub open spec fn le_u32(b: Seq<u8>, at: int) -> int {
    le_u16(b, at) + 0x1_0000 * le_u16(b, at + 2)
}

/// The 64-bit value stored low half first at `b[at..at + 8]`.
pub open spec fn le_u64(b: Seq<u8>, at: int) -> int {
    le_u32(b, at) + 0x1_0000_0000 * le_u32(b, at + 4)
}

/// The two bytes that store `v`, low byte first.
pub open spec fn le_bytes_u16(v: u16) -> Seq<u8> {
    seq![(v % 0x100) as u8, (v / 0x100) as u8]
}

/// The four bytes that store `v`, low half first.
pub open spec fn le_bytes_u32(v: u32) -> Seq<u8> {
    le_bytes_u16((v % 0x1_0000) as u16) + le_bytes_u16((v / 0x1_0000) as u16)
}

/// The eight bytes that store `v`, low half first.
pub open spec fn le_bytes_u64(v: u64) -> Seq<u8> {
    le_bytes_u32((v % 0x1_0000_0000) as u32) + le_bytes_u32((v / 0x1_0000_0000) as u32)
}

/// Reading back what was written gives the value written, whatever surrounds it.
pub proof fn lemma_le_u16_round_trip(head: Seq<u8>, v: u16, tail: Seq<u8>)
    ensures
        le_u16(head + le_bytes_u16(v) + tail, head.len() as int) == v,
{
    let b = head + le_bytes_u16(v) + tail;
    let at = head.len() as int;
    assert(b[at] == le_bytes_u16(v)[0]);
    assert(b[at + 1] == le_bytes_u16(v)[1]);
}

/// Reading back what was written gives the value written, whatever surrounds it.
pub proof fn lemma_le_u32_round_trip(head: Seq<u8>, v: u32, tail: Seq<u8>)
    ensures
        le_u32(head + le_bytes_u32(v) + tail, head.len() as int) == v,
{
    let lo = (v % 0x1_0000) as u16;
    let hi = (v / 0x1_0000) as u16;
    let b = head + le_bytes_u32(v) + tail;
    assert(b =~= head + le_bytes_u16(lo) + (le_bytes_u16(hi) + tail));
    assert(b =~= (head + le_bytes_u16(lo)) + le_bytes_u16(hi) + tail);
    lemma_le_u16_round_trip(head, lo, le_bytes_u16(hi) + tail);
    lemma_le_u16_round_trip(head + le_bytes_u16(lo), hi, tail);
}

/// Reading back what was written gives the value written, whatever surrounds it.
pub proof fn lemma_le_u64_round_trip(head: Seq<u8>, v: u64, tail: Seq<u8>)
    ensures
        le_u64(head + le_bytes_u64(v) + tail, head.len() as int) == v,
{
    let lo = (v % 0x1_0000_0000) as u32;
    let hi = (v / 0x1_0000_0000) as u32;
    let b = head + le_bytes_u64(v) + tail;
    assert(b =~= head + le_bytes_u32(lo) + (le_bytes_u32(hi) + tail));
    assert(b =~= (head + le_bytes_u32(lo)) + le_bytes_u32(hi) + tail);
    lemma_le_u32_round_trip(head, lo, le_bytes_u32(hi) + tail);
    lemma_le_u32_round_trip(head + le_bytes_u32(lo), hi, tail);
}

/// Reads the 16-bit value stored at `b[at..at + 2]`.
pub fn read_u16(b: &[u8], at: usize) -> (v: u16)
    requires
        at + 2 <= b@.len(),
    ensures
        v == le_u16(b@, at as int),
{
    let lo: u16 = b[at] as u16;
    let hi: u16 = b[at + 1] as u16;
    lo + 0x100 * hi
}

/// Reads the 32-bit value stored at `b[at..at + 4]`.
pub fn read_u32(b: &[u8], at: usize) -> (v: u32)
    requires
        at + 4 <= b@.len(),
    ensures
        v == le_u32(b@, at as int),
{
    assert(b@.len() == b.len());
    let lo: u32 = read_u16(b, at) as u32;
    let hi: u32 = read_u16(b, at + 2) as u32;
    lo + 0x1_0000 * hi
}

/// Reads the 64-bit value stored at `b[at..at + 8]`.
pub fn read_u64(b: &[u8], at: usize) -> (v: u64)
    requires
        at + 8 <= b@.len(),
    ensures
        v == le_u64(b@, at as int),
{
    assert(b@.len() == b.len());
    let lo: u64 = read_u32(b, at) as u64;
    let hi: u64 = read_u32(b, at + 4) as u64;
    lo + 0x1_0000_0000 * hi
}

/// Appends the two bytes that store `v`.
pub fn push_u16(out: &mut Vec<u8>, v: u16)
    ensures
        final(out)@ == old(out)@ + le_bytes_u16(v),
{
    out.push((v % 0x100) as u8);
    out.push((v / 0x100) as u8);
    assert(out@ =~= old(out)@ + le_bytes_u16(v));
}

/// Appends the four bytes that store `v`.
pub fn push_u32(out: &mut Vec<u8>, v: u32)
    ensures
        final(out)@ == old(out)@ + le_bytes_u32(v),
{
    push_u16(out, (v % 0x1_0000) as u16);
    push_u16(out, (v / 0x1_0000) as u16);
    assert(out@ =~= old(out)@ + le_bytes_u32(v));
}

/// Appends the eight bytes that store `v`.
pub fn push_u64(out: &mut Vec<u8>, v: u64)
    ensures
        final(out)@ == old(out)@ + le_bytes_u64(v),
{
    push_u32(out, (v % 0x1_0000_0000) as u32);
    push_u32(out, (v / 0x1_0000_0000) as u32);
    assert(out@ =~= old(out)@ + le_bytes_u64(v));
}

} // verus!
