//! Little-endian integer fields read out of byte buffers.

use vstd::prelude::*;

verus! {

pub open spec fn le_u16(s: Seq<u8>, o: int) -> nat {
    s[o] as nat + s[o + 1] as nat * 256
}

pub open spec fn le_u32(s: Seq<u8>, o: int) -> nat {
    le_u16(s, o) + le_u16(s, o + 2) * 0x1_0000
}

pub open spec fn le_u64(s: Seq<u8>, o: int) -> nat {
    le_u32(s, o) + le_u32(s, o + 4) * 0x1_0000_0000
}

/// The 16-bit little-endian value at offset `o`.
pub fn read_u16(b: &[u8], o: usize) -> (r: u16)
    requires
        o + 2 <= b@.len() <= usize::MAX,
    ensures
        r as nat == le_u16(b@, o as int),
{
    let lo = b[o] as u16;
    let hi = b[o + 1] as u16;
    assert(hi * 256 <= 65280) by (nonlinear_arith)
        requires
            hi <= 255,
    ;
    lo + hi * 256
}

/// The 32-bit little-endian value at offset `o`.
pub fn read_u32(b: &[u8], o: usize) -> (r: u32)
    requires
        o + 4 <= b@.len() <= usize::MAX,
    ensures
        r as nat == le_u32(b@, o as int),
{
    let lo = read_u16(b, o) as u32;
    let hi = read_u16(b, o + 2) as u32;
    assert(hi * 0x1_0000 <= 0xFFFF_0000) by (nonlinear_arith)
        requires
            hi <= 0xFFFF,
    ;
    lo + hi * 0x1_0000
}

/// The 64-bit little-endian value at offset `o`.
pub fn read_u64(b: &[u8], o: usize) -> (r: u64)
    requires
        o + 8 <= b@.len() <= usize::MAX,
    ensures
        r as nat == le_u64(b@, o as int),
{
    let lo = read_u32(b, o) as u64;
    let hi = read_u32(b, o + 4) as u64;
    assert(hi * 0x1_0000_0000 <= 0xFFFF_FFFF_0000_0000) by (nonlinear_arith)
        requires
            hi <= 0xFFFF_FFFF,
    ;
    lo + hi * 0x1_0000_0000
}

} // verus!
