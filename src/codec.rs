//! Little-endian scalar decoding at fixed offsets.
use vstd::prelude::*;

verus! {

/// The 16-bit little-endian value stored at `off`.
pub open spec fn le16(b: Seq<u8>, off: int) -> int {
    b[off] + b[off + 1] * 0x100
}

/// The 32-bit little-endian value stored at `off`.
pub open spec fn le32(b: Seq<u8>, off: int) -> int {
    le16(b, off) + le16(b, off + 2) * 0x1_0000
}

/// The 64-bit little-endian value stored at `off`.
pub open spec fn le64(b: Seq<u8>, off: int) -> int {
    le32(b, off) + le32(b, off + 4) * 0x1_0000_0000
}

pub fn read_u16(b: &[u8], off: usize) -> (r: u16)
    requires
        off + 2 <= b@.len(),
    ensures
        r == le16(b@, off as int),
{
    (b[off] as u16) + (b[off + 1] as u16) * 0x100
}

pub fn read_u32(b: &[u8], off: usize) -> (r: u32)
    requires
        off + 4 <= b@.len(),
    ensures
        r == le32(b@, off as int),
{
    (b[off] as u32) + (b[off + 1] as u32) * 0x100 + (b[off + 2] as u32) * 0x1_0000 + (b[off + 3] as u32)
        * 0x100_0000
}

pub fn read_u64(b: &[u8], off: usize) -> (r: u64)
    requires
        off + 8 <= b@.len(),
    ensures
        r == le64(b@, off as int),
{
    let lo = (b[off] as u64) + (b[off + 1] as u64) * 0x100 + (b[off + 2] as u64) * 0x1_0000 + (b[off
        + 3] as u64) * 0x100_0000;
    let hi = (b[off + 4] as u64) + (b[off + 5] as u64) * 0x100 + (b[off + 6] as u64) * 0x1_0000 + (b[off
        + 7] as u64) * 0x100_0000;
    lo + hi * 0x1_0000_0000
}

/// `n` consecutive 16-bit little-endian code units starting at `off`.
pub open spec fn le16_units(b: Seq<u8>, off: int, n: nat) -> Seq<u16> {
    Seq::new(n, |i: int| le16(b, off + 2 * i) as u16)
}

pub fn read_u16_units(b: &[u8], off: usize, n: usize) -> (r: Vec<u16>)
    requires
        off + 2 * n <= b@.len(),
    ensures
        r@ == le16_units(b@, off as int, n as nat),
{
    let mut r: Vec<u16> = Vec::new();
    let mut i: usize = 0;
    let len = b.len();
    while i < n
        invariant
            i <= n,
            off + 2 * n <= b@.len(),
            len == b@.len(),
            r@ == le16_units(b@, off as int, i as nat),
        decreases n - i,
    {
        let u = read_u16(b, off + 2 * i);
        r.push(u);
        i += 1;
        assert(r@ =~= le16_units(b@, off as int, i as nat));
    }
    r
}

/// The bytes `b[off..off + n]` copied out.
pub fn copy_bytes(b: &[u8], off: usize, n: usize) -> (r: Vec<u8>)
    requires
        off + n <= b@.len(),
    ensures
        r@ == b@.subrange(off as int, off + n),
{
    let mut r: Vec<u8> = Vec::new();
    let mut i: usize = 0;
    let len = b.len();
    while i < n
        invariant
            i <= n,
            off + n <= b@.len(),
            len == b@.len(),
            r@ == b@.subrange(off as int, off + i),
        decreases n - i,
    {
        r.push(b[off + i]);
        i += 1;
        assert(r@ =~= b@.subrange(off as int, off + i));
    }
    r
}

/// One step of the rotate-right-then-add checksum over a word of `m` values
/// (`m` is 2 to the word width): the word is rotated right by one bit and the
/// byte is added, wrapping.
pub open spec fn rot_add(sum: int, byte: int, m: int) -> int {
    (sum / 2 + (sum % 2) * (m / 2) + byte) % m
}

} // verus!
