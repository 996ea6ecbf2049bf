use vstd::prelude::*;

verus! {

/// The 16-bit number stored at `at`, low byte first.
pub open spec fn u16_at(data: Seq<u8>, at: int) -> u16 {
    (data[at] as int + 256 * (data[at + 1] as int)) as u16
}

/// The 32-bit number stored at `at`, low byte first.
pub open spec fn u32_at(data: Seq<u8>, at: int) -> u32 {
    (u16_at(data, at) as int + 0x1_0000 * (u16_at(data, at + 2) as int)) as u32
}

/// The 64-bit number stored at `at`, low byte first.
pub open spec fn u64_at(data: Seq<u8>, at: int) -> u64 {
    (u32_at(data, at) as int + 0x1_0000_0000 * (u32_at(data, at + 4) as int)) as u64
}

/// The two bytes that store `x`, low byte first.
pub open spec fn u16_bytes(x: u16) -> Seq<u8> {
    seq![(x % 256) as u8, (x / 256) as u8]
}

/// The four bytes that store `x`, low byte first.
pub open spec fn u32_bytes(x: u32) -> Seq<u8> {
    u16_bytes((x % 0x1_0000) as u16) + u16_bytes((x / 0x1_0000) as u16)
}

/// The eight bytes that store `x`, low byte first.
pub open spec fn u64_bytes(x: u64) -> Seq<u8> {
    u32_bytes((x % 0x1_0000_0000) as u32) + u32_bytes((x / 0x1_0000_0000) as u32)
}

/// Reading back the bytes of a 16-bit number gives the number.
pub proof fn lemma_u16_round_trip(x: u16)
    ensures
        u16_bytes(x).len() == 2,
        u16_at(u16_bytes(x), 0) == x,
{
}

/// Reading back the bytes of a 32-bit number gives the number.
pub proof fn lemma_u32_round_trip(x: u32)
    ensures
        u32_bytes(x).len() == 4,
        u32_at(u32_bytes(x), 0) == x,
{
    let lo = (x % 0x1_0000) as u16;
    let hi = (x / 0x1_0000) as u16;
    lemma_u16_round_trip(lo);
    lemma_u16_round_trip(hi);
    let b = u32_bytes(x);
    assert(b.len() == 4);
    assert(b[0] == u16_bytes(lo)[0] && b[1] == u16_bytes(lo)[1]);
    assert(b[2] == u16_bytes(hi)[0] && b[3] == u16_bytes(hi)[1]);
    assert(u16_at(b, 0) == lo);
    assert(u16_at(b, 2) == hi);
}

/// Reading back the bytes of a 64-bit number gives the number.
pub proof fn lemma_u64_round_trip(x: u64)
    ensures
        u64_bytes(x).len() == 8,
        u64_at(u64_bytes(x), 0) == x,
{
    let lo = (x % 0x1_0000_0000) as u32;
    let hi = (x / 0x1_0000_0000) as u32;
    lemma_u32_round_trip(lo);
    lemma_u32_round_trip(hi);
    let b = u64_bytes(x);
    assert(b.len() == 8);
    assert(b.subrange(0, 4) =~= u32_bytes(lo));
    assert(b.subrange(4, 8) =~= u32_bytes(hi));
    assert(u32_at(b, 0) == u32_at(u32_bytes(lo), 0));
    assert(u32_at(b, 4) == u32_at(u32_bytes(hi), 0));
}

/// A number read from a window of `data` is the number read from `data`.
pub proof fn lemma_u16_at_subrange(data: Seq<u8>, from: int, to: int, at: int)
    requires
        0 <= from <= from + at,
        from + at + 2 <= to <= data.len(),
    ensures
        u16_at(data.subrange(from, to), at) == u16_at(data, from + at),
{
}

/// A number read from a window of `data` is the number read from `data`.
pub proof fn lemma_u64_at_subrange(data: Seq<u8>, from: int, to: int, at: int)
    requires
        0 <= from <= from + at,
        from + at + 8 <= to <= data.len(),
    ensures
        u64_at(data.subrange(from, to), at) == u64_at(data, from + at),
{
}

/// Reads the 16-bit number stored at `at`.
pub fn read_u16(data: &[u8], at: usize) -> (x: u16)
    requires
        at + 2 <= data@.len(),
    ensures
        x == u16_at(data@, at as int),
{
    let lo: u16 = data[at] as u16;
    let hi: u16 = data[at + 1] as u16;
    lo + hi * 256
}

/// Reads the 32-bit number stored at `at`.
pub fn read_u32(data: &[u8], at: usize) -> (x: u32)
    requires
        at + 4 <= data@.len(),
    ensures
        x == u32_at(data@, at as int),
{
    let _len: usize = data.len();
    let lo: u32 = read_u16(data, at) as u32;
    let hi: u32 = read_u16(data, at + 2) as u32;
    lo + hi * 0x1_0000
}

/// Reads the 64-bit number stored at `at`.
pub fn read_u64(data: &[u8], at: usize) -> (x: u64)
    requires
        at + 8 <= data@.len(),
    ensures
        x == u64_at(data@, at as int),
{
    let _len: usize = data.len();
    let lo: u64 = read_u32(data, at) as u64;
    let hi: u64 = read_u32(data, at + 4) as u64;
    lo + hi * 0x1_0000_0000
}

/// Appends the two bytes of `x` to `out`.
pub fn push_u16(out: &mut Vec<u8>, x: u16)
    ensures
        final(out)@ == old(out)@ + u16_bytes(x),
{
    out.push((x % 256) as u8);
    out.push((x / 256) as u8);
    assert(out@ =~= old(out)@ + u16_bytes(x));
}

/// Appends the four bytes of `x` to `out`.
pub fn push_u32(out: &mut Vec<u8>, x: u32)
    ensures
        final(out)@ == old(out)@ + u32_bytes(x),
{
    push_u16(out, (x % 0x1_0000) as u16);
    push_u16(out, (x / 0x1_0000) as u16);
    assert(out@ =~= old(out)@ + u32_bytes(x));
}

/// Appends the eight bytes of `x` to `out`.
pub fn push_u64(out: &mut Vec<u8>, x: u64)
    ensures
        final(out)@ == old(out)@ + u64_bytes(x),
{
    push_u32(out, (x % 0x1_0000_0000) as u32);
    push_u32(out, (x / 0x1_0000_0000) as u32);
    assert(out@ =~= old(out)@ + u64_bytes(x));
}

} // verus!
