use boykernel::elf::{parse_image, ElfError};
use boykernel::loader::{
    plan_kernel_load, plan_segment, segment_contents, LoadError, MemoryKind, KERNEL_LOAD_BASE,
};

fn put_u16(b: &mut [u8], o: usize, v: u16) {
    b[o..o + 2].copy_from_slice(&v.to_le_bytes());
}

fn put_u32(b: &mut [u8], o: usize, v: u32) {
    b[o..o + 4].copy_from_slice(&v.to_le_bytes());
}

fn put_u64(b: &mut [u8], o: usize, v: u64) {
    b[o..o + 8].copy_from_slice(&v.to_le_bytes());
}

struct Seg {
    kind: u32,
    flags: u32,
    offset: u64,
    vaddr: u64,
    file_size: u64,
    mem_size: u64,
}

/// A 64-bit x86-64 image with the given program headers and `total` bytes.
fn image(entry: u64, segs: &[Seg], total: usize) -> Vec<u8> {
    let mut b = vec![0u8; total];
    b[0..4].copy_from_slice(&[0x7F, b'E', b'L', b'F']);
    b[4] = 2;
    b[5] = 1;
    put_u16(&mut b, 18, 0x3E);
    put_u64(&mut b, 24, entry);
    put_u64(&mut b, 32, 64);
    put_u16(&mut b, 54, 56);
    put_u16(&mut b, 56, segs.len() as u16);
    for (i, s) in segs.iter().enumerate() {
        let o = 64 + i * 56;
        put_u32(&mut b, o, s.kind);
        put_u32(&mut b, o + 4, s.flags);
        put_u64(&mut b, o + 8, s.offset);
        put_u64(&mut b, o + 16, s.vaddr);
        put_u64(&mut b, o + 32, s.file_size);
        put_u64(&mut b, o + 40, s.mem_size);
    }
    b
}

fn sample() -> Vec<u8> {
    let segs = [
        Seg { kind: 1, flags: 5, offset: 0x100, vaddr: 0x20_0010, file_size: 0x20, mem_size: 0x20 },
        Seg { kind: 6, flags: 4, offset: 0, vaddr: 0, file_size: 0, mem_size: 0 },
        Seg { kind: 1, flags: 6, offset: 0x120, vaddr: 0x20_3000, file_size: 0x10, mem_size: 0x1800 },
    ];
    let mut b = image(0x20_0018, &segs, 0x140);
    for i in 0x100..0x140 {
        b[i] = (i % 251) as u8 + 1;
    }
    b
}

#[test]
fn plans_loadable_segments_at_fixed_bias() {
    let plan = plan_kernel_load(&sample()).unwrap();
    assert_eq!(plan.entry, KERNEL_LOAD_BASE + 0x20_0018);
    assert_eq!(plan.segments.len(), 2);
    let text = plan.segments[0];
    assert_eq!(text.phys_base, KERNEL_LOAD_BASE + 0x20_0000);
    assert_eq!(text.page_offset, 0x10);
    assert_eq!(text.num_pages, 1);
    assert_eq!(text.kind, MemoryKind::Code);
    let data = plan.segments[1];
    assert_eq!(data.phys_base, KERNEL_LOAD_BASE + 0x20_3000);
    assert_eq!(data.page_offset, 0);
    assert_eq!(data.num_pages, 2);
    assert_eq!(data.kind, MemoryKind::Data);
    // The pages of the two segments do not overlap.
    assert!(text.phys_base + text.num_pages * 0x1000 <= data.phys_base);
    // The entry lies in the first segment's pages.
    assert!(text.phys_base <= plan.entry && plan.entry < text.phys_base + 0x1000);
}

#[test]
fn page_count_covers_offset_and_memory_size() {
    let img = image(0, &[], 64);
    let h = boykernel::elf::SegmentHeader {
        kind: 1,
        flags: 0,
        offset: 0,
        vaddr: 0x1FF0,
        file_size: 0,
        mem_size: 0x20,
    };
    let p = plan_segment(&h, img.len()).unwrap();
    assert_eq!(p.phys_base, KERNEL_LOAD_BASE + 0x1000);
    assert_eq!(p.page_offset, 0xFF0);
    assert_eq!(p.num_pages, 2);
}

#[test]
fn segment_contents_copy_then_zero_fill() {
    let b = sample();
    let plan = plan_kernel_load(&b).unwrap();
    let data = plan.segments[1];
    let bytes = segment_contents(&b, &data);
    assert_eq!(bytes.len(), 0x1800);
    assert_eq!(&bytes[..0x10], &b[0x120..0x130]);
    assert!(bytes[0x10..].iter().all(|&x| x == 0));
}

#[test]
fn parse_reports_every_program_header() {
    let img = parse_image(&sample()).unwrap();
    assert_eq!(img.entry, 0x20_0018);
    assert_eq!(img.segments.len(), 3);
    assert_eq!(img.segments[1].kind, 6);
    assert_eq!(img.segments[2].mem_size, 0x1800);
}

#[test]
fn rejects_short_image() {
    assert_eq!(parse_image(&[0x7F, b'E', b'L', b'F']).err(), Some(ElfError::TooShort));
    assert_eq!(plan_kernel_load(&[0u8; 10]).err(), Some(LoadError::Image(ElfError::TooShort)));
}

#[test]
fn rejects_bad_magic() {
    let mut b = sample();
    b[1] = b'X';
    assert_eq!(plan_kernel_load(&b).err(), Some(LoadError::Image(ElfError::BadMagic)));
}

#[test]
fn rejects_32_bit_image() {
    let mut b = sample();
    b[4] = 1;
    assert_eq!(parse_image(&b).err(), Some(ElfError::UnsupportedFormat));
}

#[test]
fn rejects_other_architecture() {
    let mut b = sample();
    put_u16(&mut b, 18, 0xB7);
    assert_eq!(parse_image(&b).err(), Some(ElfError::WrongMachine));
}

#[test]
fn rejects_program_headers_past_end() {
    let mut b = sample();
    put_u16(&mut b, 56, 200);
    assert_eq!(parse_image(&b).err(), Some(ElfError::ProgramHeadersOutOfBounds));
}

#[test]
fn rejects_segment_outside_file() {
    let segs = [Seg { kind: 1, flags: 5, offset: 0x100, vaddr: 0x1000, file_size: 0x100, mem_size: 0x100 }];
    let b = image(0x1000, &segs, 0x180);
    assert_eq!(plan_kernel_load(&b).err(), Some(LoadError::SegmentOutsideFile));
}

#[test]
fn rejects_file_size_above_memory_size() {
    let segs = [Seg { kind: 1, flags: 5, offset: 0x78, vaddr: 0x1000, file_size: 0x8, mem_size: 0x4 }];
    let b = image(0x1000, &segs, 0x80);
    assert_eq!(plan_kernel_load(&b).err(), Some(LoadError::FileSizeAboveMemSize));
}

#[test]
fn rejects_addresses_past_64_bits() {
    let segs = [Seg { kind: 1, flags: 5, offset: 0x78, vaddr: u64::MAX - 0x10, file_size: 0, mem_size: 4 }];
    let b = image(0x1000, &segs, 0x80);
    assert_eq!(plan_kernel_load(&b).err(), Some(LoadError::AddressOverflow));
    let b = image(u64::MAX - 4, &[], 0x80);
    assert_eq!(plan_kernel_load(&b).err(), Some(LoadError::AddressOverflow));
}

#[test]
fn non_loadable_segments_are_not_checked() {
    let segs = [Seg { kind: 2, flags: 0, offset: 0x1000, vaddr: 0, file_size: 0x1000, mem_size: 0 }];
    let b = image(0x40, &segs, 0x80);
    let plan = plan_kernel_load(&b).unwrap();
    assert!(plan.segments.is_empty());
    assert_eq!(plan.entry, KERNEL_LOAD_BASE + 0x40);
}
