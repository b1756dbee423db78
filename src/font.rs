//! Bitmap fonts in the PSF2 format: a fixed header, then the glyphs one after
//! another, each `height` rows of `(width + 7) / 8` bytes, most significant
//! bit leftmost.

use vstd::prelude::*;
use vstd::slice::slice_subrange;
use crate::bytes::{le_u32, read_u32};

verus! {

/// First word of a PSF2 font.
pub const PSF2_MAGIC: u32 = 0x864a_b572;
/// Size in bytes of the fixed header.
pub const PSF2_HEADER_SIZE: usize = 32;

/// The fixed header of a PSF2 font.
#[derive(PartialEq, Eq, Structural, Clone, Copy, Debug)]
pub struct PSF2Header {
    pub magic: u32,
    pub version: u32,
    pub headersize: u32,
    pub flags: u32,
    pub glyph_count: u32,
    pub bytes_per_glyph: u32,
    pub height: u32,
    pub width: u32,
}

/// A font: its header and the bytes of all its glyphs.
pub struct PSF2Font {
    pub header: PSF2Header,
    pub glyphs: Vec<u8>,
}

/// The header stored at the start of `s`.
pub open spec fn header_of(s: Seq<u8>) -> PSF2Header {
    PSF2Header {
        magic: le_u32(s, 0) as u32,
        version: le_u32(s, 4) as u32,
        headersize: le_u32(s, 8) as u32,
        flags: le_u32(s, 12) as u32,
        glyph_count: le_u32(s, 16) as u32,
        bytes_per_glyph: le_u32(s, 20) as u32,
        height: le_u32(s, 24) as u32,
        width: le_u32(s, 28) as u32,
    }
}

/// Total size in bytes of the glyphs that header `h` announces.
pub open spec fn glyph_data_len(h: PSF2Header) -> nat {
    h.glyph_count as nat * h.bytes_per_glyph as nat
}

/// Whether `s` holds a whole font: the header, the magic, and all the glyph
/// bytes that the header announces.
pub open spec fn is_font(s: Seq<u8>) -> bool {
    &&& s.len() >= PSF2_HEADER_SIZE
    &&& header_of(s).magic == PSF2_MAGIC
    &&& header_of(s).headersize + glyph_data_len(header_of(s)) <= s.len()
}

/// The bytes of glyph `index` of `f`, if it has that glyph.
pub open spec fn glyph_spec(f: &PSF2Font, index: u32) -> Option<Seq<u8>> {
    if index < f.header.glyph_count && (index + 1) * f.header.bytes_per_glyph <= f.glyphs@.len() {
        Some(
            f.glyphs@.subrange(
                index * f.header.bytes_per_glyph,
                (index + 1) * f.header.bytes_per_glyph,
            ),
        )
    } else {
        None
    }
}

impl PSF2Font {
    /// Reads a font from its bytes; `None` where they hold no whole font.
    pub fn from_bytes(bytes: &[u8]) -> (r: Option<PSF2Font>)
        ensures
            r is Some <==> is_font(bytes@),
            r matches Some(f) ==> {
                let h = header_of(bytes@);
                &&& f.header == h
                &&& f.glyphs@ == bytes@.subrange(
                    h.headersize as int,
                    h.headersize + glyph_data_len(h),
                )
            },
    {
        let len = bytes.len();
        if len < PSF2_HEADER_SIZE {
            return None;
        }
        let header = PSF2Header {
            magic: read_u32(bytes, 0),
            version: read_u32(bytes, 4),
            headersize: read_u32(bytes, 8),
            flags: read_u32(bytes, 12),
            glyph_count: read_u32(bytes, 16),
            bytes_per_glyph: read_u32(bytes, 20),
            height: read_u32(bytes, 24),
            width: read_u32(bytes, 28),
        };
        if header.magic != PSF2_MAGIC {
            return None;
        }
        let offset = header.headersize as usize;
        let count = header.glyph_count as u64;
        let per = header.bytes_per_glyph as u64;
        assert(count * per <= 0xFFFF_FFFF * 0xFFFF_FFFF) by (nonlinear_arith)
            requires
                count <= 0xFFFF_FFFF,
                per <= 0xFFFF_FFFF,
        ;
        let data_len = count * per;
        if offset > len || data_len > (len - offset) as u64 {
            return None;
        }
        let n = data_len as usize;
        let mut glyphs: Vec<u8> = Vec::new();
        let mut i: usize = 0;
        while i < n
            invariant
                offset + n <= bytes@.len(),
                len == bytes@.len(),
                i <= n,
                glyphs@ == bytes@.subrange(offset as int, offset + i),
            decreases n - i,
        {
            glyphs.push(bytes[offset + i]);
            assert(bytes@.subrange(offset as int, offset + i + 1) =~= bytes@.subrange(
                offset as int,
                offset + i,
            ).push(bytes@[offset + i]));
            i = i + 1;
        }
        Some(PSF2Font { header, glyphs })
    }

    /// The bytes of glyph `index`; `None` past the last glyph.
    pub fn glyph(&self, index: u32) -> (r: Option<&[u8]>)
        ensures
            r is Some <==> glyph_spec(self, index) is Some,
            r matches Some(g) ==> g@ == glyph_spec(self, index)->0,
    {
        if index >= self.header.glyph_count {
            return None;
        }
        let per = self.header.bytes_per_glyph as u64;
        assert(index * per + per <= 0xFFFF_FFFF * 0xFFFF_FFFF + 0xFFFF_FFFF) by (nonlinear_arith)
            requires
                index <= 0xFFFF_FFFF,
                per <= 0xFFFF_FFFF,
        ;
        let start = index as u64 * per;
        let end = start + per;
        assert(end == (index + 1) * per) by (nonlinear_arith)
            requires
                start == index * per,
                end == start + per,
        ;
        if end > self.glyphs.len() as u64 {
            return None;
        }
        Some(slice_subrange(self.glyphs.as_slice(), start as usize, end as usize))
    }
}

/// Reads the font stored in `data`, as `PSF2Font::from_bytes` does.
pub fn load_font(data: &[u8]) -> (r: Option<PSF2Font>)
    ensures
        r is Some <==> is_font(data@),
        r matches Some(f) ==> f.header == header_of(data@) && f.glyphs@ == data@.subrange(
            header_of(data@).headersize as int,
            header_of(data@).headersize + glyph_data_len(header_of(data@)),
        ),
{
    PSF2Font::from_bytes(data)
}

} // verus!
