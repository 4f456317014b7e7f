//! Fixed-width integers on the wire: little-endian for the result stream and
//! the binary configuration, big-endian for ICMP and IPv4 headers.

use vstd::prelude::*;

verus! {

/// The two bytes of `x`, least significant first.
pub open spec fn le_u16(x: u16) -> Seq<u8> {
    seq![(x % 256) as u8, (x / 256) as u8]
}

/// The four bytes of `x`, least significant first.
pub open spec fn le_u32(x: u32) -> Seq<u8> {
    seq![
        (x % 256) as u8,
        (x / 256 % 256) as u8,
        (x / 65536 % 256) as u8,
        (x / 16777216) as u8,
    ]
}

/// The eight bytes of `x`, least significant first.
pub open spec fn le_u64(x: u64) -> Seq<u8> {
    le_u32((x % 0x1_0000_0000) as u32) + le_u32((x / 0x1_0000_0000) as u32)
}

/// The number whose little-endian bytes are the first two of `s`.
pub open spec fn from_le_u16(s: Seq<u8>) -> u16 {
    (s[0] + 256 * s[1]) as u16
}

/// The number whose little-endian bytes are the first four of `s`.
pub open spec fn from_le_u32(s: Seq<u8>) -> u32 {
    (s[0] + 256 * s[1] + 65536 * s[2] + 16777216 * s[3]) as u32
}

/// The number whose little-endian bytes are the first eight of `s`.
pub open spec fn from_le_u64(s: Seq<u8>) -> u64 {
    (from_le_u32(s) + 0x1_0000_0000 * from_le_u32(s.subrange(4, 8))) as u64
}

/// The number whose big-endian bytes are `hi` then `lo`.
pub open spec fn be_u16(hi: u8, lo: u8) -> u16 {
    (256 * hi + lo) as u16
}

/// The number whose big-endian bytes are `a`, `b`, `c`, `d`.
pub open spec fn be_u32(a: u8, b: u8, c: u8, d: u8) -> u32 {
    (16777216 * a + 65536 * b + 256 * c + d) as u32
}

/// Reading back two written bytes gives the number that was written.
pub proof fn lemma_le_u16_round_trip(x: u16)
    ensures
        le_u16(x).len() == 2,
        from_le_u16(le_u16(x)) == x,
{
}

/// Reading back four written bytes gives the number that was written.
pub proof fn lemma_le_u32_round_trip(x: u32)
    ensures
        le_u32(x).len() == 4,
        from_le_u32(le_u32(x)) == x,
{
    let s = le_u32(x);
    assert(s[0] == x % 256);
    assert(s[1] == x / 256 % 256);
    assert(s[2] == x / 65536 % 256);
    assert(s[3] == x / 16777216);
}

/// Reading back eight written bytes gives the number that was written.
pub proof fn lemma_le_u64_round_trip(x: u64)
    ensures
        le_u64(x).len() == 8,
        from_le_u64(le_u64(x)) == x,
{
    let lo = (x % 0x1_0000_0000) as u32;
    let hi = (x / 0x1_0000_0000) as u32;
    lemma_le_u32_round_trip(lo);
    lemma_le_u32_round_trip(hi);
    let s = le_u64(x);
    assert(s.subrange(4, 8) =~= le_u32(hi));
    assert(s[0] == le_u32(lo)[0] && s[1] == le_u32(lo)[1] && s[2] == le_u32(lo)[2] && s[3]
        == le_u32(lo)[3]);
    assert(from_le_u32(s) == from_le_u32(le_u32(lo)));
}

/// Writing the number read from two bytes gives those bytes.
pub proof fn lemma_le_u16_of_bytes(s: Seq<u8>)
    requires
        s.len() == 2,
    ensures
        le_u16(from_le_u16(s)) == s,
{
    assert(le_u16(from_le_u16(s)) =~= s);
}

/// Writing the number read from four bytes gives those bytes.
pub proof fn lemma_le_u32_of_bytes(s: Seq<u8>)
    requires
        s.len() == 4,
    ensures
        le_u32(from_le_u32(s)) == s,
{
    let x = from_le_u32(s);
    assert(x == s[0] + 256 * s[1] + 65536 * s[2] + 16777216 * s[3]);
    assert(x % 256 == s[0]);
    assert(x / 256 == s[1] + 256 * s[2] + 65536 * s[3]);
    assert(x / 256 % 256 == s[1]);
    assert(x / 65536 == s[2] + 256 * s[3]);
    assert(x / 65536 % 256 == s[2]);
    assert(x / 16777216 == s[3]);
    assert(le_u32(x) =~= s);
}

/// Writing the number read from eight bytes gives those bytes.
pub proof fn lemma_le_u64_of_bytes(s: Seq<u8>)
    requires
        s.len() == 8,
    ensures
        le_u64(from_le_u64(s)) == s,
{
    let lo = from_le_u32(s);
    let hi = from_le_u32(s.subrange(4, 8));
    let x = from_le_u64(s);
    assert(x == lo + 0x1_0000_0000 * hi);
    assert((x % 0x1_0000_0000) as u32 == lo);
    assert((x / 0x1_0000_0000) as u32 == hi);
    assert(from_le_u32(s) == from_le_u32(s.subrange(0, 4)));
    lemma_le_u32_of_bytes(s.subrange(0, 4));
    lemma_le_u32_of_bytes(s.subrange(4, 8));
    assert(le_u64(x) =~= s);
}

/// Appends the little-endian bytes of `x` to `out`.
pub fn push_le_u16(out: &mut Vec<u8>, x: u16)
    ensures
        final(out)@ == old(out)@ + le_u16(x),
{
    out.push((x % 256) as u8);
    out.push((x / 256) as u8);
    assert(out@ =~= old(out)@ + le_u16(x));
}

/// Appends the little-endian bytes of `x` to `out`.
pub fn push_le_u32(out: &mut Vec<u8>, x: u32)
    ensures
        final(out)@ == old(out)@ + le_u32(x),
{
    out.push((x % 256) as u8);
    out.push((x / 256 % 256) as u8);
    out.push((x / 65536 % 256) as u8);
    out.push((x / 16777216) as u8);
    assert(out@ =~= old(out)@ + le_u32(x));
}

/// Appends the little-endian bytes of `x` to `out`.
pub fn push_le_u64(out: &mut Vec<u8>, x: u64)
    ensures
        final(out)@ == old(out)@ + le_u64(x),
{
    let ghost before = out@;
    push_le_u32(out, (x % 0x1_0000_0000) as u32);
    push_le_u32(out, (x / 0x1_0000_0000) as u32);
    assert(out@ =~= before + le_u64(x));
}

/// Takes a little-endian `u16` off the front of `input`.
pub fn read_le_u16(input: &mut &[u8]) -> (x: u16)
    requires
        old(input)@.len() >= 2,
    ensures
        x == from_le_u16(old(input)@),
        final(input)@ == old(input)@.subrange(2, old(input)@.len() as int),
{
    let (head, rest) = input.split_at(2);
    *input = rest;
    head[0] as u16 + 256 * (head[1] as u16)
}

/// Takes a little-endian `u32` off the front of `input`.
pub fn read_le_u32(input: &mut &[u8]) -> (x: u32)
    requires
        old(input)@.len() >= 4,
    ensures
        x == from_le_u32(old(input)@),
        final(input)@ == old(input)@.subrange(4, old(input)@.len() as int),
{
    let (head, rest) = input.split_at(4);
    *input = rest;
    head[0] as u32 + 256 * (head[1] as u32) + 65536 * (head[2] as u32) + 16777216 * (head[3] as u32)
}

/// Takes a little-endian `u64` off the front of `input`.
pub fn read_le_u64(input: &mut &[u8]) -> (x: u64)
    requires
        old(input)@.len() >= 8,
    ensures
        x == from_le_u64(old(input)@),
        final(input)@ == old(input)@.subrange(8, old(input)@.len() as int),
{
    let ghost before = input@;
    let lo = read_le_u32(input);
    let ghost middle = input@;
    let hi = read_le_u32(input);
    assert(middle.subrange(0, 4) =~= before.subrange(4, 8));
    assert(from_le_u32(middle) == from_le_u32(before.subrange(4, 8)));
    assert(input@ =~= before.subrange(8, before.len() as int));
    lo as u64 + 0x1_0000_0000 * (hi as u64)
}

/// The big-endian `u16` at `data[at..at + 2]`.
pub fn read_be_u16(data: &[u8], at: usize) -> (x: u16)
    requires
        at + 2 <= data@.len(),
    ensures
        x == be_u16(data@[at as int], data@[at + 1]),
{
    256 * (data[at] as u16) + data[at + 1] as u16
}

/// The big-endian `u32` at `data[at..at + 4]`.
pub fn read_be_u32(data: &[u8], at: usize) -> (x: u32)
    requires
        at + 4 <= data@.len(),
    ensures
        x == be_u32(data@[at as int], data@[at + 1], data@[at + 2], data@[at + 3]),
{
    16777216 * (data[at] as u32) + 65536 * (data[at + 1] as u32) + 256 * (data[at + 2] as u32)
        + data[at + 3] as u32
}

} // verus!
