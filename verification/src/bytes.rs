//! Little-endian integer views over byte buffers: the mathematical reading of
//! a fixed-width field, exec readers that realize it, and writers whose output
//! reads back to the value written.

use vstd::prelude::*;

verus! {

use vstd::arithmetic::div_mod::lemma_fundamental_div_mod_converse;

/// The unsigned integer stored little-endian in the two bytes at `off`.
pub open spec fn le16(b: Seq<u8>, off: int) -> int {
    b[off] + 0x100 * b[off + 1]
}

/// The unsigned integer stored little-endian in the four bytes at `off`.
pub open spec fn le32(b: Seq<u8>, off: int) -> int {
    b[off] + 0x100 * b[off + 1] + 0x1_0000 * b[off + 2] + 0x100_0000 * b[off + 3]
}

/// The unsigned integer stored little-endian in the eight bytes at `off`.
pub open spec fn le64(b: Seq<u8>, off: int) -> int {
    le32(b, off) + 0x1_0000_0000 * le32(b, off + 4)
}

pub fn read_u16_le(b: &[u8], off: usize) -> (r: u16)
    requires
        off + 2 <= b@.len(),
    ensures
        r == le16(b@, off as int),
{
    (b[off] as u16) + (b[off + 1] as u16) * 0x100
}

pub fn read_u32_le(b: &[u8], off: usize) -> (r: u32)
    requires
        off + 4 <= b@.len(),
    ensures
        r == le32(b@, off as int),
{
    (b[off] as u32) + (b[off + 1] as u32) * 0x100 + (b[off + 2] as u32) * 0x1_0000 + (b[off
        + 3] as u32) * 0x100_0000
}

pub fn read_u64_le(b: &[u8], off: usize) -> (r: u64)
    requires
        off + 8 <= b@.len(),
    ensures
        r == le64(b@, off as int),
{
    let n = b.len();
    assert(off + 8 <= n);
    let lo = read_u32_le(b, off);
    let hi = read_u32_le(b, off + 4);
    (lo as u64) + (hi as u64) * 0x1_0000_0000
}

/// The four bytes that store `x` little-endian.
pub open spec fn u32_le_bytes(x: u32) -> Seq<u8> {
    seq![
        (x % 0x100) as u8,
        ((x / 0x100) % 0x100) as u8,
        ((x / 0x1_0000) % 0x100) as u8,
        ((x / 0x100_0000) % 0x100) as u8,
    ]
}

/// The two bytes that store `x` little-endian.
pub open spec fn u16_le_bytes(x: u16) -> Seq<u8> {
    seq![(x % 0x100) as u8, ((x / 0x100) % 0x100) as u8]
}

/// The eight bytes that store `x` little-endian.
pub open spec fn u64_le_bytes(x: u64) -> Seq<u8> {
    u32_le_bytes((x % 0x1_0000_0000) as u32) + u32_le_bytes((x / 0x1_0000_0000) as u32)
}

pub fn push_u16_le(out: &mut Vec<u8>, x: u16)
    ensures
        final(out)@ == old(out)@ + u16_le_bytes(x),
{
    out.push((x % 0x100) as u8);
    out.push(((x / 0x100) % 0x100) as u8);
    assert(out@ =~= old(out)@ + u16_le_bytes(x));
}

pub fn push_u32_le(out: &mut Vec<u8>, x: u32)
    ensures
        final(out)@ == old(out)@ + u32_le_bytes(x),
{
    out.push((x % 0x100) as u8);
    out.push(((x / 0x100) % 0x100) as u8);
    out.push(((x / 0x1_0000) % 0x100) as u8);
    out.push(((x / 0x100_0000) % 0x100) as u8);
    assert(out@ =~= old(out)@ + u32_le_bytes(x));
}

pub fn push_u64_le(out: &mut Vec<u8>, x: u64)
    ensures
        final(out)@ == old(out)@ + u64_le_bytes(x),
{
    push_u32_le(out, (x % 0x1_0000_0000) as u32);
    push_u32_le(out, (x / 0x1_0000_0000) as u32);
    assert(out@ =~= old(out)@ + u64_le_bytes(x));
}

/// Reading a `u16` out of bytes and writing it back reproduces those bytes.
pub proof fn lemma_u16_le_bytes_of_read(b: Seq<u8>, off: int)
    requires
        0 <= off,
        off + 2 <= b.len(),
    ensures
        u16_le_bytes(le16(b, off) as u16) == b.subrange(off, off + 2),
{
    assert(u16_le_bytes(le16(b, off) as u16) =~= b.subrange(off, off + 2));
}

/// Reading a `u32` out of bytes and writing it back reproduces those bytes.
pub proof fn lemma_u32_le_bytes_of_read(b: Seq<u8>, off: int)
    requires
        0 <= off,
        off + 4 <= b.len(),
    ensures
        u32_le_bytes(le32(b, off) as u32) == b.subrange(off, off + 4),
{
    let x = le32(b, off);
    let b0 = b[off] as int;
    let b1 = b[off + 1] as int;
    let b2 = b[off + 2] as int;
    let b3 = b[off + 3] as int;
    lemma_fundamental_div_mod_converse(x, 0x100, b1 + 0x100 * b2 + 0x1_0000 * b3, b0);
    lemma_fundamental_div_mod_converse(x, 0x1_0000, b2 + 0x100 * b3, b0 + 0x100 * b1);
    lemma_fundamental_div_mod_converse(x, 0x100_0000, b3, b0 + 0x100 * b1 + 0x1_0000 * b2);
    lemma_fundamental_div_mod_converse(b1 + 0x100 * b2 + 0x1_0000 * b3, 0x100, b2 + 0x100 * b3, b1);
    lemma_fundamental_div_mod_converse(b2 + 0x100 * b3, 0x100, b3, b2);
    lemma_fundamental_div_mod_converse(b3, 0x100, 0, b3);
    assert(u32_le_bytes(x as u32) =~= b.subrange(off, off + 4));
}

/// Reading a `u64` out of bytes and writing it back reproduces those bytes.
pub proof fn lemma_u64_le_bytes_of_read(b: Seq<u8>, off: int)
    requires
        0 <= off,
        off + 8 <= b.len(),
    ensures
        u64_le_bytes(le64(b, off) as u64) == b.subrange(off, off + 8),
{
    let x = le64(b, off);
    let lo = le32(b, off);
    let hi = le32(b, off + 4);
    lemma_fundamental_div_mod_converse(x, 0x1_0000_0000, hi, lo);
    lemma_u32_le_bytes_of_read(b, off);
    lemma_u32_le_bytes_of_read(b, off + 4);
    assert(u64_le_bytes(x as u64) =~= b.subrange(off, off + 8));
}

} // verus!
