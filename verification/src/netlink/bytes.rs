//! Little-endian integer layouts of Netlink fields.

use vstd::prelude::*;

verus! {

/// The little-endian `u16` at `pos` of `b`.
pub open spec fn le_u16(b: Seq<u8>, pos: int) -> u16 {
    (b[pos] as int + b[pos + 1] as int * 256) as u16
}

/// The little-endian `u32` at `pos` of `b`.
pub open spec fn le_u32(b: Seq<u8>, pos: int) -> u32 {
    (b[pos] as int + b[pos + 1] as int * 0x100 + b[pos + 2] as int * 0x10000 + b[pos + 3] as int
        * 0x1000000) as u32
}

/// The little-endian two's-complement `i32` at `pos` of `b`.
pub open spec fn le_i32(b: Seq<u8>, pos: int) -> i32 {
    let u = le_u32(b, pos);
    if u < 0x8000_0000 {
        u as i32
    } else {
        (u - 0x1_0000_0000) as i32
    }
}

/// The little-endian `u64` at `pos` of `b`.
pub open spec fn le_u64(b: Seq<u8>, pos: int) -> u64 {
    (le_u32(b, pos) as int + le_u32(b, pos + 4) as int * 0x1_0000_0000) as u64
}

/// The two little-endian bytes of `x`.
pub open spec fn u16_bytes(x: u16) -> Seq<u8> {
    seq![(x % 256) as u8, (x / 256) as u8]
}

/// The four little-endian bytes of `x`.
pub open spec fn u32_bytes(x: u32) -> Seq<u8> {
    seq![
        (x % 0x100) as u8,
        ((x / 0x100) % 0x100) as u8,
        ((x / 0x10000) % 0x100) as u8,
        (x / 0x1000000) as u8,
    ]
}

/// The four little-endian two's-complement bytes of `x`.
pub open spec fn i32_bytes(x: i32) -> Seq<u8> {
    u32_bytes(
        if x >= 0 {
            x as u32
        } else {
            (x + 0x1_0000_0000) as u32
        },
    )
}

/// Reads the little-endian `u16` at `pos`.
pub fn read_u16(b: &[u8], pos: usize) -> (r: u16)
    requires
        pos + 2 <= b@.len(),
    ensures
        r == le_u16(b@, pos as int),
{
    (b[pos] as u16) + (b[pos + 1] as u16) * 256
}

/// Reads the little-endian `u32` at `pos`.
pub fn read_u32(b: &[u8], pos: usize) -> (r: u32)
    requires
        pos + 4 <= b@.len(),
    ensures
        r == le_u32(b@, pos as int),
{
    (b[pos] as u32) + (b[pos + 1] as u32) * 0x100 + (b[pos + 2] as u32) * 0x10000 + (b[pos
        + 3] as u32) * 0x1000000
}

/// Reads the little-endian two's-complement `i32` at `pos`.
pub fn read_i32(b: &[u8], pos: usize) -> (r: i32)
    requires
        pos + 4 <= b@.len(),
    ensures
        r == le_i32(b@, pos as int),
{
    let u = read_u32(b, pos);
    if u < 0x8000_0000 {
        u as i32
    } else {
        let m = (u - 0x8000_0000) as i32;
        m - 0x7fff_ffff - 1
    }
}

/// Reads the little-endian `u64` at `pos`.
pub fn read_u64(b: &[u8], pos: usize) -> (r: u64)
    requires
        pos + 8 <= b@.len(),
    ensures
        r == le_u64(b@, pos as int),
{
    let n = b.len();
    assert(pos + 4 <= n);
    (read_u32(b, pos) as u64) + (read_u32(b, pos + 4) as u64) * 0x1_0000_0000
}

/// Appends the little-endian bytes of a `u16`.
pub fn push_u16(v: &mut Vec<u8>, x: u16)
    ensures
        final(v)@ == old(v)@ + u16_bytes(x),
{
    v.push((x % 256) as u8);
    v.push((x / 256) as u8);
    assert(v@ =~= old(v)@ + u16_bytes(x));
}

/// Appends the little-endian bytes of a `u32`.
pub fn push_u32(v: &mut Vec<u8>, x: u32)
    ensures
        final(v)@ == old(v)@ + u32_bytes(x),
{
    v.push((x % 0x100) as u8);
    v.push(((x / 0x100) % 0x100) as u8);
    v.push(((x / 0x10000) % 0x100) as u8);
    v.push((x / 0x1000000) as u8);
    assert(v@ =~= old(v)@ + u32_bytes(x));
}

/// Appends the little-endian two's-complement bytes of an `i32`.
pub fn push_i32(v: &mut Vec<u8>, x: i32)
    ensures
        final(v)@ == old(v)@ + i32_bytes(x),
{
    let u: u32 = if x >= 0 {
        x as u32
    } else {
        ((x + 0x7fff_ffff + 1) as u32) + 0x8000_0000
    };
    push_u32(v, u);
}

/// Decoding the bytes of a `u16` gives it back.
pub proof fn lemma_u16_roundtrip(x: u16, b: Seq<u8>, pos: int)
    requires
        0 <= pos,
        pos + 2 <= b.len(),
        b.subrange(pos, pos + 2) == u16_bytes(x),
    ensures
        le_u16(b, pos) == x,
{
    assert(b[pos] == b.subrange(pos, pos + 2)[0]);
    assert(b[pos + 1] == b.subrange(pos, pos + 2)[1]);
}

/// Decoding the bytes of a `u32` gives it back.
pub proof fn lemma_u32_roundtrip(x: u32, b: Seq<u8>, pos: int)
    requires
        0 <= pos,
        pos + 4 <= b.len(),
        b.subrange(pos, pos + 4) == u32_bytes(x),
    ensures
        le_u32(b, pos) == x,
{
    assert(b[pos] == b.subrange(pos, pos + 4)[0]);
    assert(b[pos + 1] == b.subrange(pos, pos + 4)[1]);
    assert(b[pos + 2] == b.subrange(pos, pos + 4)[2]);
    assert(b[pos + 3] == b.subrange(pos, pos + 4)[3]);
}

/// Decoding the bytes of an `i32` gives it back.
pub proof fn lemma_i32_roundtrip(x: i32, b: Seq<u8>, pos: int)
    requires
        0 <= pos,
        pos + 4 <= b.len(),
        b.subrange(pos, pos + 4) == i32_bytes(x),
    ensures
        le_i32(b, pos) == x,
{
    let u: u32 = if x >= 0 {
        x as u32
    } else {
        (x + 0x1_0000_0000) as u32
    };
    lemma_u32_roundtrip(u, b, pos);
}

} // verus!
