//! Fixed-width little-endian integers and byte runs inside a record.

use vstd::prelude::*;

verus! {

/// The unsigned number that the first two bytes of `b` spell, low byte first.
pub open spec fn le_u16(b: Seq<u8>) -> int {
    b[0] as int + 0x100 * (b[1] as int)
}

/// The unsigned number that the first four bytes of `b` spell, low byte first.
pub open spec fn le_u32(b: Seq<u8>) -> int {
    le_u16(b) + 0x1_0000 * le_u16(b.skip(2))
}

/// The unsigned number that the first eight bytes of `b` spell, low byte first.
pub open spec fn le_u64(b: Seq<u8>) -> int {
    le_u32(b) + 0x1_0000_0000 * le_u32(b.skip(4))
}

/// Two's-complement reading of an unsigned `bits`-wide number `u`, given
/// `half == 2^(bits - 1)`.
pub open spec fn signed(u: int, half: int) -> int {
    if u < half {
        u
    } else {
        u - 2 * half
    }
}

/// The signed 16-bit number stored little-endian at offset `at` of `bytes`.
pub open spec fn le_i16_at(bytes: Seq<u8>, at: int) -> int {
    signed(le_u16(bytes.skip(at)), 0x8000)
}

/// The signed 32-bit number stored little-endian at offset `at` of `bytes`.
pub open spec fn le_i32_at(bytes: Seq<u8>, at: int) -> int {
    signed(le_u32(bytes.skip(at)), 0x8000_0000)
}

/// The signed 64-bit number stored little-endian at offset `at` of `bytes`.
pub open spec fn le_i64_at(bytes: Seq<u8>, at: int) -> int {
    signed(le_u64(bytes.skip(at)), 0x8000_0000_0000_0000)
}

/// Reads the signed 16-bit little-endian number at offset `at`.
pub fn read_i16(bytes: &[u8], at: usize) -> (r: i16)
    requires
        at + 2 <= bytes@.len(),
    ensures
        r == le_i16_at(bytes@, at as int),
{
    let lo: u32 = bytes[at] as u32;
    let hi: u32 = bytes[at + 1] as u32;
    let u: u32 = lo + 0x100 * hi;
    if u < 0x8000 {
        u as i16
    } else {
        let d: i32 = u as i32 - 0x1_0000;
        d as i16
    }
}

/// Reads the signed 32-bit little-endian number at offset `at`.
pub fn read_i32(bytes: &[u8], at: usize) -> (r: i32)
    requires
        at + 4 <= bytes@.len(),
    ensures
        r == le_i32_at(bytes@, at as int),
{
    let b0: u64 = bytes[at] as u64;
    let b1: u64 = bytes[at + 1] as u64;
    let b2: u64 = bytes[at + 2] as u64;
    let b3: u64 = bytes[at + 3] as u64;
    let u: u64 = b0 + 0x100 * b1 + 0x1_0000 * (b2 + 0x100 * b3);
    if u < 0x8000_0000 {
        u as i32
    } else {
        let d: i64 = u as i64 - 0x1_0000_0000;
        d as i32
    }
}

/// Reads the signed 64-bit little-endian number at offset `at`.
pub fn read_i64(bytes: &[u8], at: usize) -> (r: i64)
    requires
        at + 8 <= bytes@.len(),
    ensures
        r == le_i64_at(bytes@, at as int),
{
    let b0: u64 = bytes[at] as u64;
    let b1: u64 = bytes[at + 1] as u64;
    let b2: u64 = bytes[at + 2] as u64;
    let b3: u64 = bytes[at + 3] as u64;
    let b4: u64 = bytes[at + 4] as u64;
    let b5: u64 = bytes[at + 5] as u64;
    let b6: u64 = bytes[at + 6] as u64;
    let b7: u64 = bytes[at + 7] as u64;
    let lo: u64 = b0 + 0x100 * b1 + 0x1_0000 * (b2 + 0x100 * b3);
    let hi: u64 = b4 + 0x100 * b5 + 0x1_0000 * (b6 + 0x100 * b7);
    if hi < 0x8000_0000 {
        let u: u64 = lo + 0x1_0000_0000 * hi;
        u as i64
    } else {
        let top: i64 = hi as i64 - 0x1_0000_0000;
        top * 0x1_0000_0000 + lo as i64
    }
}

/// Copies the `N` bytes at offset `at` out of `bytes`.
pub fn read_bytes<const N: usize>(bytes: &[u8], at: usize) -> (r: [u8; N])
    requires
        at + N <= bytes@.len(),
    ensures
        r@ == bytes@.subrange(at as int, at + N),
{
    let len: usize = bytes.len();
    let mut out: [u8; N] = [0u8; N];
    let mut i: usize = 0;
    while i < N
        invariant
            i <= N,
            at + N <= len,
            len == bytes@.len(),
            forall|k: int| 0 <= k < i ==> out@[k] == bytes@[at + k],
        decreases N - i,
    {
        out[i] = bytes[at + i];
        i = i + 1;
    }
    assert(out@ =~= bytes@.subrange(at as int, at + N));
    out
}

} // verus!
