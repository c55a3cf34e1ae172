//! Fixed-width integers as they lie in a byte buffer.

use vstd::prelude::*;

verus! {

/// The 16-bit value whose low byte is `lo` and whose high byte is `hi`.
pub open spec fn u16_of(lo: u8, hi: u8) -> u16 {
    (lo as int + hi as int * 0x100) as u16
}

/// The 32-bit value of four bytes, least significant first.
pub open spec fn u32_of(b0: u8, b1: u8, b2: u8, b3: u8) -> u32 {
    (b0 as int + b1 as int * 0x100 + b2 as int * 0x1_0000 + b3 as int * 0x100_0000) as u32
}

/// Little-endian 16-bit value at `at`.
pub open spec fn le_u16(data: Seq<u8>, at: int) -> u16 {
    u16_of(data[at], data[at + 1])
}

/// Big-endian 16-bit value at `at`.
pub open spec fn be_u16(data: Seq<u8>, at: int) -> u16 {
    u16_of(data[at + 1], data[at])
}

/// Little-endian 32-bit value at `at`.
pub open spec fn le_u32(data: Seq<u8>, at: int) -> u32 {
    u32_of(data[at], data[at + 1], data[at + 2], data[at + 3])
}

/// Big-endian 32-bit value at `at`.
pub open spec fn be_u32(data: Seq<u8>, at: int) -> u32 {
    u32_of(data[at + 3], data[at + 2], data[at + 1], data[at])
}

/// Little-endian 64-bit value at `at`.
pub open spec fn le_u64(data: Seq<u8>, at: int) -> u64 {
    (le_u32(data, at) as int + le_u32(data, at + 4) as int * 0x1_0000_0000) as u64
}

/// The four bytes of `x`, least significant first.
pub open spec fn le_bytes_of_u32(x: u32) -> Seq<u8> {
    seq![
        (x as int % 0x100) as u8,
        (x as int / 0x100 % 0x100) as u8,
        (x as int / 0x1_0000 % 0x100) as u8,
        (x as int / 0x100_0000 % 0x100) as u8,
    ]
}

/// `n` zero bytes.
pub open spec fn zeros(n: nat) -> Seq<u8> {
    Seq::new(n, |i: int| 0u8)
}

pub fn read_u16_le(data: &[u8], at: usize) -> (v: u16)
    requires
        at + 2 <= data@.len(),
    ensures
        v == le_u16(data@, at as int),
{
    data[at] as u16 + data[at + 1] as u16 * 0x100
}

pub fn read_u16_be(data: &[u8], at: usize) -> (v: u16)
    requires
        at + 2 <= data@.len(),
    ensures
        v == be_u16(data@, at as int),
{
    let hi: u8 = data[at];
    data[at + 1] as u16 + hi as u16 * 0x100
}

pub fn read_u32_le(data: &[u8], at: usize) -> (v: u32)
    requires
        at + 4 <= data@.len(),
    ensures
        v == le_u32(data@, at as int),
{
    data[at] as u32 + data[at + 1] as u32 * 0x100 + data[at + 2] as u32 * 0x1_0000 + data[at
        + 3] as u32 * 0x100_0000
}

pub fn read_u32_be(data: &[u8], at: usize) -> (v: u32)
    requires
        at + 4 <= data@.len(),
    ensures
        v == be_u32(data@, at as int),
{
    let hi: u8 = data[at];
    data[at + 3] as u32 + data[at + 2] as u32 * 0x100 + data[at + 1] as u32 * 0x1_0000 + hi as u32
        * 0x100_0000
}

pub fn read_u64_le(data: &[u8], at: usize) -> (v: u64)
    requires
        at + 8 <= data@.len(),
    ensures
        v == le_u64(data@, at as int),
{
    let len: usize = data.len();
    let lo: u32 = read_u32_le(data, at);
    let hi: u32 = read_u32_le(data, at + 4);
    lo as u64 + hi as u64 * 0x1_0000_0000
}

/// The four bytes of `x`, least significant first.
pub fn u32_to_le_bytes(x: u32) -> (out: [u8; 4])
    ensures
        out@ == le_bytes_of_u32(x),
{
    let out: [u8; 4] = [
        (x % 0x100) as u8,
        (x / 0x100 % 0x100) as u8,
        (x / 0x1_0000 % 0x100) as u8,
        (x / 0x100_0000 % 0x100) as u8,
    ];
    assert(out@ =~= le_bytes_of_u32(x));
    out
}

/// A copy of `data[from..to]`.
pub fn copy_range(data: &[u8], from: usize, to: usize) -> (out: Vec<u8>)
    requires
        from <= to <= data@.len(),
    ensures
        out@ == data@.subrange(from as int, to as int),
{
    let mut out: Vec<u8> = Vec::new();
    let mut i: usize = from;
    while i < to
        invariant
            from <= i <= to <= data@.len(),
            out@ == data@.subrange(from as int, i as int),
        decreases to - i,
    {
        out.push(data[i]);
        i += 1;
        assert(out@ =~= data@.subrange(from as int, i as int));
    }
    assert(out@ =~= data@.subrange(from as int, to as int));
    out
}

/// Overwrites `data[at..at + src.len()]` with `src`.
pub fn write_range(data: &mut Vec<u8>, at: usize, src: &[u8])
    requires
        at + src@.len() <= old(data)@.len(),
    ensures
        final(data)@ == old(data)@.subrange(0, at as int) + src@ + old(data)@.subrange(
            at + src@.len(),
            old(data)@.len() as int,
        ),
        final(data)@.len() == old(data)@.len(),
{
    let len: usize = data.len();
    let mut i: usize = 0;
    while i < src.len()
        invariant
            0 <= i <= src@.len(),
            len == data@.len(),
            at + src@.len() <= data@.len(),
            data@.len() == old(data)@.len(),
            data@ == old(data)@.subrange(0, at as int) + src@.subrange(0, i as int) + old(
                data,
            )@.subrange(at + i, old(data)@.len() as int),
        decreases src@.len() - i,
    {
        data.set(at + i, src[i]);
        i += 1;
        assert(data@ =~= old(data)@.subrange(0, at as int) + src@.subrange(0, i as int) + old(
            data,
        )@.subrange(at + i, old(data)@.len() as int));
    }
    assert(src@.subrange(0, src@.len() as int) =~= src@);
}

} // verus!
