//! The parts of a 64-bit little-endian x86-64 executable image that the
//! loader consumes: the entry point and the program-header table.

use vstd::prelude::*;
use crate::bytes::{le_u16, le_u32, le_u64, read_u16, read_u32, read_u64};

verus! {

/// Size of the file header of a 64-bit image.
pub const ELF_HEADER_SIZE: usize = 64;

/// Bytes of a program header that are read.
pub const PROGRAM_HEADER_SIZE: usize = 56;

/// Machine number of x86-64.
pub const MACHINE_X86_64: u16 = 0x3E;

/// Why an image was rejected.
#[derive(PartialEq, Eq, Structural, Clone, Copy, Debug)]
pub enum ElfError {
    /// Shorter than the file header.
    TooShort,
    /// The first four bytes are not the executable-image magic.
    BadMagic,
    /// Not a 64-bit little-endian image.
    UnsupportedFormat,
    /// Built for another architecture.
    WrongMachine,
    /// The program-header table does not lie inside the file.
    ProgramHeadersOutOfBounds,
}

/// One program header, with the fields that the loader consumes.
#[derive(PartialEq, Eq, Structural, Clone, Copy, Debug)]
pub struct SegmentHeader {
    pub kind: u32,
    pub flags: u32,
    pub offset: u64,
    pub vaddr: u64,
    pub file_size: u64,
    pub mem_size: u64,
}

/// A parsed image: the entry point and the program headers in table order.
pub struct ElfImage {
    pub entry: u64,
    pub segments: Vec<SegmentHeader>,
}

pub open spec fn ph_offset(s: Seq<u8>) -> nat {
    le_u64(s, 32)
}

pub open spec fn ph_entry_size(s: Seq<u8>) -> nat {
    le_u16(s, 54)
}

pub open spec fn ph_count(s: Seq<u8>) -> nat {
    le_u16(s, 56)
}

pub open spec fn has_magic(s: Seq<u8>) -> bool {
    s[0] == 0x7F && s[1] == 0x45 && s[2] == 0x4C && s[3] == 0x46
}

/// Why the image `s` is rejected, if it is.
pub open spec fn image_error(s: Seq<u8>) -> Option<ElfError> {
    if s.len() < ELF_HEADER_SIZE {
        Some(ElfError::TooShort)
    } else if !has_magic(s) {
        Some(ElfError::BadMagic)
    } else if s[4] != 2 || s[5] != 1 {
        Some(ElfError::UnsupportedFormat)
    } else if le_u16(s, 18) != MACHINE_X86_64 {
        Some(ElfError::WrongMachine)
    } else if ph_count(s) > 0 && (ph_entry_size(s) < PROGRAM_HEADER_SIZE || ph_offset(s)
        + ph_count(s) * ph_entry_size(s) > s.len()) {
        Some(ElfError::ProgramHeadersOutOfBounds)
    } else {
        None
    }
}

/// The program header whose fields start at offset `o`.
pub open spec fn header_at(s: Seq<u8>, o: int) -> SegmentHeader {
    SegmentHeader {
        kind: le_u32(s, o) as u32,
        flags: le_u32(s, o + 4) as u32,
        offset: le_u64(s, o + 8) as u64,
        vaddr: le_u64(s, o + 16) as u64,
        file_size: le_u64(s, o + 32) as u64,
        mem_size: le_u64(s, o + 40) as u64,
    }
}

/// The `i`-th program header of `s`.
pub open spec fn program_header(s: Seq<u8>, i: int) -> SegmentHeader {
    header_at(s, ph_offset(s) + i * ph_entry_size(s))
}

/// Reads the entry point and the program-header table of an image.
pub fn parse_image(b: &[u8]) -> (r: Result<ElfImage, ElfError>)
    ensures
        match r {
            Ok(img) => {
                &&& image_error(b@) is None
                &&& img.entry as nat == le_u64(b@, 24)
                &&& img.segments@.len() == ph_count(b@)
                &&& forall|i: int|
                    0 <= i < img.segments@.len() ==> #[trigger] img.segments@[i]
                        == program_header(b@, i)
            },
            Err(e) => image_error(b@) == Some(e),
        },
{
    if b.len() < ELF_HEADER_SIZE {
        return Err(ElfError::TooShort);
    }
    if !(b[0] == 0x7F && b[1] == 0x45 && b[2] == 0x4C && b[3] == 0x46) {
        return Err(ElfError::BadMagic);
    }
    if b[4] != 2 || b[5] != 1 {
        return Err(ElfError::UnsupportedFormat);
    }
    if read_u16(b, 18) != MACHINE_X86_64 {
        return Err(ElfError::WrongMachine);
    }
    let entry = read_u64(b, 24);
    let phoff = read_u64(b, 32);
    let entsize = read_u16(b, 54) as usize;
    let count = read_u16(b, 56) as usize;
    let mut base: usize = 0;
    if count > 0 {
        if entsize < PROGRAM_HEADER_SIZE || phoff > b.len() as u64 {
            return Err(ElfError::ProgramHeadersOutOfBounds);
        }
        base = phoff as usize;
        assert(count * entsize <= 0xFFFF * 0xFFFF) by (nonlinear_arith)
            requires
                count <= 0xFFFF,
                entsize <= 0xFFFF,
        ;
        if count * entsize > b.len() - base {
            return Err(ElfError::ProgramHeadersOutOfBounds);
        }
    }
    let mut segments: Vec<SegmentHeader> = Vec::new();
    let mut i: usize = 0;
    while i < count
        invariant
            image_error(b@) is None,
            b@.len() <= usize::MAX,
            count == ph_count(b@),
            entsize == ph_entry_size(b@),
            count > 0 ==> base == ph_offset(b@),
            i <= count,
            count > 0 ==> entsize >= PROGRAM_HEADER_SIZE && base + count * entsize <= b@.len(),
            segments@.len() == i,
            forall|k: int| 0 <= k < i ==> #[trigger] segments@[k] == program_header(b@, k),
        decreases count - i,
    {
        assert(i * entsize + entsize <= count * entsize) by (nonlinear_arith)
            requires
                i < count,
        ;
        let o = base + i * entsize;
        let h = SegmentHeader {
            kind: read_u32(b, o),
            flags: read_u32(b, o + 4),
            offset: read_u64(b, o + 8),
            vaddr: read_u64(b, o + 16),
            file_size: read_u64(b, o + 32),
            mem_size: read_u64(b, o + 40),
        };
        segments.push(h);
        i = i + 1;
    }
    Ok(ElfImage { entry, segments })
}

} // verus!
